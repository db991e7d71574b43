//! The grammars of the library held against regular expressions that describe
//! the same texts, on many made-up inputs.

use chrono::Datelike;
use chrono::NaiveDate;
use markdown_extract::clock::extract_clocks;
use markdown_extract::date::Date;
use markdown_extract::heading::parse_heading;
use markdown_extract::repeater::parse_repeater;
use markdown_extract::repeater::Repeater;
use markdown_extract::repeater::RepeaterType;
use markdown_extract::repeater::RepeaterUnit;
use markdown_extract::timestamp::parse_org_timestamp;
use markdown_extract::timestamp::ClockTime;
use markdown_extract::types::Priority;
use markdown_extract::types::TaskType;
use regex::Regex;

const WEEKDAYS: &str =
    "(?: (?:Mon|Tue|Wed|Thu|Fri|Sat|Sun|Monday|Tuesday|Wednesday|Thursday|Friday|Saturday|Sunday))?";
const TIMES: &str = r"(?: (\d{1,2}:\d{2})(?:-(\d{1,2}:\d{2}))?)?";

fn single_pattern() -> String {
    format!(
        r"<(\d{{4}}-\d{{2}}-\d{{2}}){WEEKDAYS}{TIMES}(?:\s*([.+]+\d+(?:wd|[dwmyh])))?(?:\s+-(\d+)d)?>"
    )
}

fn range_pattern() -> String {
    format!(r"{}--<(\d{{4}}-\d{{2}}-\d{{2}}){WEEKDAYS}{TIMES}>", single_pattern())
}

/// What a directive is expected to give: date, time, end time, repeater,
/// warning, end date.
type Expected = (Date, Option<ClockTime>, Option<ClockTime>, Option<Repeater>, Option<u32>, Option<Date>);

fn date_of(text: &str) -> Option<Date> {
    let date = NaiveDate::parse_from_str(text, "%Y-%m-%d").ok()?;
    Date::from_ymd_opt(date.year(), date.month(), date.day())
}

fn clock_of(text: &str) -> ClockTime {
    let (hour, minute) = text.split_once(':').unwrap();
    ClockTime { hour: hour.parse().unwrap(), minute: minute.parse().unwrap() }
}

fn expected(text: &str, range: &Regex, single: &Regex) -> Option<Expected> {
    let (caps, ranged) = match range.captures(text) {
        Some(caps) => (caps, true),
        None => (single.captures(text)?, false),
    };
    let date = date_of(&caps[1])?;
    Some((
        date,
        caps.get(2).map(|m| clock_of(m.as_str())),
        caps.get(3).map(|m| clock_of(m.as_str())),
        caps.get(4).and_then(|m| parse_repeater(m.as_str())),
        caps.get(5).and_then(|m| m.as_str().parse().ok()),
        if ranged { date_of(&caps[6]) } else { None },
    ))
}

fn found(text: &str) -> Option<Expected> {
    let p = parse_org_timestamp(text, None)?;
    Some((p.date, p.time, p.end_time, p.repeater, p.deadline_warning_days, p.end_date))
}

/// A sequence of numbers that looks random and is the same on every run.
struct Dice(u64);

impl Dice {
    fn roll(&mut self, sides: usize) -> usize {
        self.0 = self.0.wrapping_mul(6364136223846793005).wrapping_add(1442695040888963407);
        ((self.0 >> 33) % sides as u64) as usize
    }

    fn pick<'a>(&mut self, from: &[&'a str]) -> &'a str {
        from[self.roll(from.len())]
    }
}

const PREFIXES: [&str; 6] = ["", "SCHEDULED: ", "DEADLINE:", "x ", "<", "CLOSED: <2024-01-0"];
const DATES: [&str; 5] = ["2024-12-05", "2024-02-30", "2024-1-05", "0000-01-01", "2024-12-5"];
const DAYS: [&str; 11] =
    ["", " Mon", " Monday", " Mond", "  Mon", " mon", "Mon", " Thu", " Thursday", " Sat", " Sun"];
const CLOCKS: [&str; 12] = [
    "", " 10:00", " 9:05", " 10:00-11:30", " 10:00-1:30", " 10:0", " 100:00", " 10:00-", "10:00",
    "  10:00", " 10:00-11:3", " 99:99",
];
const REPEATERS: [&str; 16] = [
    "", " +1d", "+1d", "  ++2w", " .+3m", " +1wd", " +1w", " +0y", " +1x", " +.+1h", " + 1d",
    " +d", "\t+12wd", " +4294967296d", " +1dd", "\u{a0}.+7h",
];
const WARNINGS: [&str; 10] =
    ["", " -3d", "-3d", "  -14d", " -d", " -3", " - 3d", " -4294967296d", "\u{a0}-0d", "\n-7d"];
const CLOSERS: [&str; 3] = [">", "", " >"];
const RANGES: [&str; 10] = [
    "",
    "--<2024-12-07>",
    "--<2024-12-07 Sat 10:00-11:00>",
    "--<2024-12-07 +1d>",
    "--<2024-02-30>",
    "-<2024-12-07>",
    "--2024-12-07>",
    "--<2024-12-07 Sat",
    "--<2024-12-07 Saturday 9:00>",
    "--<2024-12-07 -3d>",
];
const SUFFIXES: [&str; 4] = ["", " x", " <2025-01-01 +1d>", " <2025-01-01>--<2025-01-02>"];

fn compare_directives(seed: u64, count: usize) {
    let range = Regex::new(&range_pattern()).unwrap();
    let single = Regex::new(&single_pattern()).unwrap();
    let mut dice = Dice(seed);
    let mut read = 0;
    for _ in 0..count {
        let text = [
            dice.pick(&PREFIXES),
            "<",
            dice.pick(&DATES),
            dice.pick(&DAYS),
            dice.pick(&CLOCKS),
            dice.pick(&REPEATERS),
            dice.pick(&WARNINGS),
            dice.pick(&CLOSERS),
            dice.pick(&RANGES),
            dice.pick(&SUFFIXES),
        ]
        .concat();
        let want = expected(&text, &range, &single);
        assert_eq!(found(&text), want, "{text:?}");
        read += usize::from(want.is_some());
    }
    assert!(read * 20 > count, "{read} of {count}");
}

#[test]
fn directives_are_read_as_the_patterns_say_first_part() {
    compare_directives(1, 60_000);
}

#[test]
fn directives_are_read_as_the_patterns_say_second_part() {
    compare_directives(2, 60_000);
}

#[test]
fn directives_are_read_as_the_patterns_say_third_part() {
    compare_directives(3, 60_000);
}

#[test]
fn well_formed_directives_are_read_as_the_patterns_say() {
    let range = Regex::new(&range_pattern()).unwrap();
    let single = Regex::new(&single_pattern()).unwrap();
    let mut read = 0;
    for day in [DAYS[0], DAYS[1], DAYS[2], DAYS[8]] {
        for clock in [CLOCKS[0], CLOCKS[1], CLOCKS[2], CLOCKS[3], CLOCKS[11]] {
            for repeater in REPEATERS {
                for warning in WARNINGS {
                    for tail in RANGES {
                        let text =
                            ["<2024-12-05", day, clock, repeater, warning, ">", tail].concat();
                        let want = expected(&text, &range, &single);
                        assert_eq!(found(&text), want, "{text:?}");
                        read += usize::from(want.is_some());
                    }
                }
            }
        }
    }
    assert!(read > 20_000, "{read}");
}

const TOKENS: [&str; 24] = [
    "<", ">", "-", "--", " ", "\t", ":", "+", ".", "0", "1", "9", "d", "w", "m", "y", "h", "x",
    "Mon", "Sunday", "2024-12-05", "10:00", "+1d", "-3d",
];

#[test]
fn short_texts_are_read_as_the_patterns_say() {
    let range = Regex::new(&range_pattern()).unwrap();
    let single = Regex::new(&single_pattern()).unwrap();
    let mut dice = Dice(7);
    let mut read = 0;
    for _ in 0..40_000 {
        let mut text = String::from("<2024-12-05");
        for _ in 0..dice.roll(7) {
            text.push_str(dice.pick(&TOKENS));
        }
        let want = expected(&text, &range, &single);
        assert_eq!(found(&text), want, "{text:?}");
        read += usize::from(want.is_some());
    }
    assert!(read > 1_000, "{read}");
}

#[test]
fn repeaters_are_read_as_a_pattern_says() {
    let pattern = Regex::new(r"^(\.\+|\+\+|\+)(\+?[0-9]+)(wd|d|w|m|y|h)$").unwrap();
    let tokens = [".", "+", "0", "1", "7", "42", "4294967295", "4294967296", "d", "w", "m", "y", "h", "x", " ", "-"];
    let mut texts: Vec<String> = vec![String::new()];
    let mut from = 0;
    for _ in 0..4 {
        let until = texts.len();
        for i in from..until {
            for token in tokens {
                texts.push(format!("{}{token}", texts[i]));
            }
        }
        from = until;
    }
    assert_eq!(texts.len(), 1 + 16 + 256 + 4096 + 65536);
    let mut read = 0;
    for text in &texts {
        let want = pattern.captures(text.trim()).and_then(|caps| {
            let value: u32 = caps[2].parse().ok()?;
            if value == 0 {
                return None;
            }
            Some(Repeater {
                repeater_type: match &caps[1] {
                    ".+" => RepeaterType::Restart,
                    "++" => RepeaterType::CatchUp,
                    _ => RepeaterType::Cumulative,
                },
                value,
                unit: match &caps[3] {
                    "wd" => RepeaterUnit::Workday,
                    "d" => RepeaterUnit::Day,
                    "w" => RepeaterUnit::Week,
                    "m" => RepeaterUnit::Month,
                    "y" => RepeaterUnit::Year,
                    _ => RepeaterUnit::Hour,
                },
            })
        });
        assert_eq!(parse_repeater(text), want, "{text:?}");
        read += usize::from(want.is_some());
    }
    assert!(read > 150, "{read}");
}

#[test]
fn headings_are_read_as_a_pattern_says() {
    let pattern = Regex::new(r"^(TODO|DONE)\s+(?:\[#([A-Z])\]\s+)?(.+)$").unwrap();
    let words = ["TODO", "DONE", "TODOx", "todo", "", " TODO", "DONEDONE"];
    let gaps = ["", " ", "  ", "\t", "\n", " \n", "\n ", "\u{a0}", "\u{2003} "];
    let priorities = ["", "[#A]", "[#B]", "[#Z]", "[#a]", "[#AB]", "[A]", "[#A", "[#Я]"];
    let titles = ["", "x", "Important task", "a\nb", " ", "\n", "x ", "[#C] y", "x\n", "\tx"];
    let mut read = 0;
    for word in words {
        for first in gaps {
            for priority in priorities {
                for second in gaps {
                    for title in titles {
                        let text = [word, first, priority, second, title].concat();
                        let want = match pattern.captures(&text) {
                            Some(caps) => (
                                TaskType::from_str(&caps[1]),
                                caps.get(2)
                                    .and_then(|m| m.as_str().chars().next())
                                    .and_then(Priority::from_char),
                                caps[3].to_string(),
                            ),
                            None => (None, None, text.clone()),
                        };
                        assert_eq!(parse_heading(&text), want, "{text:?}");
                        read += usize::from(want.0.is_some());
                    }
                }
            }
        }
    }
    assert!(read > 5_000, "{read}");
}

#[test]
fn clock_lines_are_read_as_a_pattern_says() {
    let pattern = Regex::new(
        r"CLOCK:\s*[\[<]([^\]>]+)[\]>](?:--[\[<]([^\]>]+)[\]>])?(?:\s*=>\s*([0-9]+:[0-9]+))?",
    )
    .unwrap();
    let tokens = [
        "CLOCK:", "CLOCK: [a]", " ", "\n", "[", "]", "<", ">", "--", "-", "=>", "=", "2:05", "1",
        ":", "a", "2023-02-19 Sun 21:30", "--[b]", " => 0:45", "\u{a0}",
    ];
    let mut dice = Dice(11);
    let mut lines = 0;
    for _ in 0..60_000 {
        let mut text = String::new();
        for _ in 0..1 + dice.roll(9) {
            text.push_str(dice.pick(&tokens));
        }
        let want: Vec<(String, Option<String>, Option<String>)> = pattern
            .captures_iter(&text)
            .map(|caps| {
                (
                    caps[1].to_string(),
                    caps.get(2).map(|m| m.as_str().to_string()),
                    caps.get(3).map(|m| m.as_str().to_string()),
                )
            })
            .collect();
        let got: Vec<(String, Option<String>, Option<String>)> = extract_clocks(&text)
            .into_iter()
            .map(|entry| (entry.start, entry.end, entry.duration))
            .collect();
        assert_eq!(got, want, "{text:?}");
        lines += want.len();
    }
    assert!(lines > 10_000, "{lines}");
}
