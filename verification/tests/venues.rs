use occupancy_monitor::scraper::scraper::{Event, Scrape};
use occupancy_monitor::scraper::sta::gym::Gym;
use occupancy_monitor::scraper::sta::main_library::MainLibrary;
use occupancy_monitor::timing::calendar::{Date, Timestamp};
use occupancy_monitor::timing::schedule::Schedule;

fn entry(hours: &str) -> String {
    format!("<dt>Day</dt><dd class=\"paired-values-list__value\">{}</dd>\n", hours)
}

fn page(hours: &[&str]) -> String {
    let mut body = String::from("<html><p>Occupancy:  45%</p><dl>");
    for day in hours {
        body.push_str(&entry(day));
    }
    body.push_str("</dl></html>");
    body
}

fn hours_of(schedule: &Schedule) -> Vec<Option<(u16, u16)>> {
    (0..7u8)
        .map(|day| {
            let timing = schedule.timing(day);
            match (timing.opening(), timing.closing()) {
                (Some(opening), Some(closing)) => Some((opening, closing)),
                _ => None,
            }
        })
        .collect()
}

#[test]
fn the_gym_knows_its_page() {
    let gym = Gym::new(None);
    assert_eq!(gym.url(), "https://sport.wp.st-andrews.ac.uk/");
    assert_eq!(gym.user_agent(), "Mozilla/5.0");
    assert_eq!(gym.get_last_updated(), None);
    assert_eq!(Gym::table_name(), "gym");
}

#[test]
fn the_gym_remembers_its_forecast() {
    let gym = Gym::new(Some("2024-01-08".to_string()));
    assert_eq!(gym.get_last_updated(), Date::from_ymd(2024, 1, 8));
    let mut gym = Gym::new(Some("last week".to_string()));
    assert_eq!(gym.get_last_updated(), None);
    gym.set_last_updated(Date::from_ymd(2024, 1, 15).unwrap());
    assert_eq!(gym.get_last_updated(), Date::from_ymd(2024, 1, 15));
    assert_eq!(gym.url(), "https://sport.wp.st-andrews.ac.uk/");
}

#[test]
fn the_gym_reads_its_occupancy() {
    let gym = Gym::new(None);
    assert_eq!(gym.parse_occupancy("<p>Occupancy:  45%</p>"), Some(45));
    assert_eq!(gym.parse_occupancy("Occupancy: 0%"), Some(0));
    assert_eq!(gym.parse_occupancy("Occupancy:\n\t100% and Occupancy: 3%"), Some(100));
    assert_eq!(gym.parse_occupancy("Occupancy: 65535%"), Some(65_535));
    assert_eq!(gym.parse_occupancy("Occupancy: 65536%"), None);
    assert_eq!(gym.parse_occupancy("Occupancy:45%"), None);
    assert_eq!(gym.parse_occupancy("Occupancy: 45"), None);
    assert_eq!(gym.parse_occupancy("occupancy: 45%"), None);
    assert_eq!(gym.parse_occupancy(""), None);
    assert_eq!(gym.parse_occupancy("Occupancy: ٣%"), None);
}

#[test]
fn the_gym_reads_clock_times() {
    let gym = Gym::new(None);
    assert_eq!(gym.parse_timings("6.30am"), Some(630));
    assert_eq!(gym.parse_timings("10.30pm"), Some(2230));
    assert_eq!(gym.parse_timings("6:30AM"), Some(630));
    assert_eq!(gym.parse_timings("6.30Pm"), Some(1830));
    assert_eq!(gym.parse_timings("12.00pm"), Some(2400));
    assert_eq!(gym.parse_timings("0.00am"), Some(0));
    assert_eq!(gym.parse_timings("6.30"), Some(0));
    assert_eq!(gym.parse_timings("6.30 am"), Some(0));
    assert_eq!(gym.parse_timings("noon"), None);
    assert_eq!(gym.parse_timings(""), None);
    assert_eq!(gym.parse_timings("700.00am"), None);
    assert_eq!(gym.parse_timings("99999.00am"), None);
    assert_eq!(gym.parse_timings("650.35am"), Some(65_035));
}

#[test]
fn the_gym_reads_its_hours() {
    let gym = Gym::new(None);
    let body = page(&[
        "6.30am to 10.30pm",
        "6.30am to 10.30pm",
        "6.30am to 10.30pm",
        "6.30am to 10.30pm",
        "6.30am to 9.00pm",
        "8.00am to 6.00pm",
        "8.30am to 6.15pm",
    ]);
    let schedule = gym.parse_schedule(&body).unwrap();
    assert_eq!(
        hours_of(&schedule),
        vec![
            Some((630, 2230)),
            Some((630, 2230)),
            Some((630, 2230)),
            Some((630, 2230)),
            Some((630, 2100)),
            Some((800, 1800)),
            Some((830, 1815)),
        ]
    );
    let monday = Date::from_ymd(2024, 1, 1).unwrap();
    assert!(schedule.is_open(Timestamp::new(monday, 9 * 3600).unwrap()));
    assert!(!schedule.is_open(Timestamp::new(monday, 23 * 3600).unwrap()));
}

#[test]
fn the_gym_reads_a_short_or_a_long_week() {
    let gym = Gym::new(None);
    let short = gym.parse_schedule(&page(&["7.00am to 8.00am", "9.00am to 10.00am"])).unwrap();
    assert_eq!(
        hours_of(&short),
        vec![Some((700, 800)), Some((900, 1000)), None, None, None, None, None]
    );
    let none = gym.parse_schedule("<html>no hours here</html>").unwrap();
    assert_eq!(hours_of(&none), vec![None; 7]);
    let long = gym
        .parse_schedule(&page(&[
            "1.00am to 2.00am",
            "1.00am to 2.00am",
            "1.00am to 2.00am",
            "1.00am to 2.00am",
            "1.00am to 2.00am",
            "1.00am to 2.00am",
            "1.00am to 2.00am",
            "3.00am to 4.00am",
        ]))
        .unwrap();
    assert_eq!(hours_of(&long), vec![Some((100, 200)); 7]);
}

#[test]
fn hours_that_cannot_be_read_fail_the_gym_schedule() {
    let gym = Gym::new(None);
    assert!(gym.parse_schedule(&page(&["6.30am to 10.30pm", "by appointment"])).is_none());
    assert!(gym.parse_schedule(&page(&["6.30am until late"])).is_none());
    // The closing lies before the opening.
    assert!(gym.parse_schedule(&page(&["10.30pm to 6.30am"])).is_none());
    // After noon, twelve o'clock lies beyond the end of the day.
    assert!(gym.parse_schedule(&page(&["6.30am to 12.00pm"])).is_none());
    // A day that is only said to be closed names no opening.
    assert!(gym.parse_schedule(&page(&["CLOSED"])).is_none());
    assert!(gym.parse_schedule(&page(&["6.30am to 10.30pm", ""])).is_none());
}

#[test]
fn a_page_is_read_into_an_event() {
    let gym = Gym::new(None);
    let now = Timestamp::new(Date::from_ymd(2024, 1, 1).unwrap(), 9 * 3600).unwrap();
    match gym.scrape(&page(&["6.30am to 10.30pm"]), now) {
        Event::Extracted { occupancy, schedule, now: at } => {
            assert_eq!(occupancy, Some(45));
            assert_eq!(hours_of(&schedule.unwrap())[0], Some((630, 2230)));
            assert_eq!(at.seconds_from_midnight(), 32_400);
        }
        _ => panic!(),
    }
    match gym.scrape("nothing", now) {
        Event::Extracted { occupancy, schedule, .. } => {
            assert_eq!(occupancy, None);
            assert_eq!(hours_of(&schedule.unwrap()), vec![None; 7]);
        }
        _ => panic!(),
    }
    match gym.scrape(&page(&["whenever"]), now) {
        Event::Extracted { occupancy, schedule, .. } => {
            assert_eq!(occupancy, Some(45));
            assert!(schedule.is_none());
        }
        _ => panic!(),
    }
}

#[test]
fn the_library_knows_its_pages() {
    let library = MainLibrary::new(Some("2024-01-08".to_string()));
    assert_eq!(library.url(), "https://www.st-andrews.ac.uk/library/sentry-api/current-occupancy");
    assert_eq!(library.schedule_url(), "https://www.st-andrews.ac.uk/library/");
    assert_eq!(library.user_agent(), "Mozilla/5.0");
    assert_eq!(library.get_last_updated(), Date::from_ymd(2024, 1, 8));
    assert_eq!(MainLibrary::table_name(), "main_library");
    let mut library = MainLibrary::new(Some("2024-13-08".to_string()));
    assert_eq!(library.get_last_updated(), None);
    library.set_last_updated(Date::from_day_number(5));
    assert_eq!(library.get_last_updated(), Some(Date::from_day_number(5)));
    assert_eq!(MainLibrary::new(None).get_last_updated(), None);
}

#[test]
fn the_library_reads_its_counter() {
    let library = MainLibrary::new(None);
    let reading = "{\"staff\":1,\"other\":2,\"student\":30,\"total\":33,\"capacity\":100}";
    assert_eq!(library.parse_occupancy(reading), Some(33));
    let third = "{\"staff\":0,\"other\":0,\"student\":1,\"total\":1,\"capacity\":3, \"more\": true}";
    assert_eq!(library.parse_occupancy(third), Some(33));
    let crowded = "{\"staff\":0,\"other\":0,\"student\":150,\"total\":150,\"capacity\":100}";
    assert_eq!(library.parse_occupancy(crowded), Some(150));
    let no_room = "{\"staff\":0,\"other\":0,\"student\":1,\"total\":1,\"capacity\":0}";
    assert_eq!(library.parse_occupancy(no_room), None);
    let no_capacity = "{\"staff\":1,\"other\":2,\"student\":30,\"total\":33}";
    assert_eq!(library.parse_occupancy(no_capacity), None);
    let no_staff = "{\"other\":2,\"student\":30,\"total\":33,\"capacity\":100}";
    assert_eq!(library.parse_occupancy(no_staff), None);
    let negative = "{\"staff\":1,\"other\":2,\"student\":30,\"total\":-33,\"capacity\":100}";
    assert_eq!(library.parse_occupancy(negative), None);
    let fraction = "{\"staff\":1,\"other\":2,\"student\":30,\"total\":33.5,\"capacity\":100}";
    assert_eq!(library.parse_occupancy(fraction), None);
    let large = "{\"staff\":1,\"other\":2,\"student\":30,\"total\":4294967296,\"capacity\":100}";
    assert_eq!(library.parse_occupancy(large), None);
    let text = "{\"staff\":1,\"other\":2,\"student\":30,\"total\":\"33\",\"capacity\":100}";
    assert_eq!(library.parse_occupancy(text), None);
    assert_eq!(library.parse_occupancy("<html>"), None);
    assert_eq!(library.parse_occupancy(""), None);
}

#[test]
fn occupancy_is_a_percentage_of_the_capacity() {
    assert_eq!(MainLibrary::occupancy_percent(33, 100), Some(33));
    assert_eq!(MainLibrary::occupancy_percent(1, 3), Some(33));
    assert_eq!(MainLibrary::occupancy_percent(2, 3), Some(66));
    assert_eq!(MainLibrary::occupancy_percent(0, 3), Some(0));
    assert_eq!(MainLibrary::occupancy_percent(3, 3), Some(100));
    assert_eq!(MainLibrary::occupancy_percent(6, 3), Some(200));
    assert_eq!(MainLibrary::occupancy_percent(5, 0), None);
    assert_eq!(MainLibrary::occupancy_percent(65_535, 100), Some(65_535));
    assert_eq!(MainLibrary::occupancy_percent(65_536, 100), None);
    assert_eq!(MainLibrary::occupancy_percent(u32::MAX, 1), None);
    assert_eq!(MainLibrary::occupancy_percent(u32::MAX, u32::MAX), Some(100));
}

#[test]
fn the_library_reads_full_hours() {
    let library = MainLibrary::new(None);
    assert_eq!(library.parse_timings("9", "am"), Some(900));
    assert_eq!(library.parse_timings("9", "pm"), Some(2100));
    assert_eq!(library.parse_timings("12", "pm"), Some(2400));
    assert_eq!(library.parse_timings("9", "AM"), Some(0));
    assert_eq!(library.parse_timings("9", ""), Some(0));
    assert_eq!(library.parse_timings("nine", "am"), None);
    assert_eq!(library.parse_timings("", "am"), None);
    assert_eq!(library.parse_timings("655", "am"), Some(65_500));
    assert_eq!(library.parse_timings("656", "am"), None);
    assert_eq!(library.parse_timings("655", "pm"), None);
}

#[test]
fn the_library_reads_its_hours() {
    let library = MainLibrary::new(None);
    let body = page(&["9am to 5pm", "8am to 11pm", "10am to 11am"]);
    let schedule = library.parse_schedule(&body).unwrap();
    assert_eq!(
        hours_of(&schedule),
        vec![Some((900, 1700)), Some((800, 2300)), Some((1000, 1100)), None, None, None, None]
    );
    assert_eq!(hours_of(&library.parse_schedule("").unwrap()), vec![None; 7]);
    assert!(library.parse_schedule(&page(&["9am to 5pm", "9.30am to 5pm"])).is_none());
    assert!(library.parse_schedule(&page(&["5pm to 9am"])).is_none());
    assert!(library.parse_schedule(&page(&["CLOSED"])).is_none());
    assert!(library.parse_schedule(&page(&["9am to 12pm"])).is_none());
}

#[test]
fn the_library_reads_seven_days_at_most() {
    let library = MainLibrary::new(None);
    let week = ["9am to 5pm"; 7];
    let mut days: Vec<&str> = week.to_vec();
    days.push("not hours at all");
    let schedule = library.parse_schedule(&page(&days)).unwrap();
    assert_eq!(hours_of(&schedule), vec![Some((900, 1700)); 7]);
    // The gym reads on, and fails on the eighth entry.
    assert!(Gym::new(None).parse_schedule(&page(&days)).is_none());
}
