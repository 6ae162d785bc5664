use icalendar::{Calendar, Component};
use oic_fox_fuckery::calendar::{game_start, is_annotatable, leave_early_summary, pacific_time_labels, parse_calendar, AnnotatedCalendar, EventStart};
use oic_fox_fuckery::venue::{get_venue_events, VenueEvent, VenueEventInfo};

const TEST_CAL_DATA: &str = r#"
BEGIN:VCALENDAR
VERSION:2.0
PRODID:-//SIAHL//HockeyCalendar//EN
METHOD:PUBLISH
X-WR-CALNAME:TEAM:Sofa King Embarrassing
X-WR-RELCALID:7da15a194de3ffbe5cd554785af7a9a4
X-WR-TIMEZONE:US/Pacific
CALSCALE:GREGORIAN
LAST-MODIFIED:20250713T080124Z
BEGIN:VEVENT
UID:4851287f81cca59620e3d6723a29d698
DTSTAMP:20250713T080124Z
CATEGORIES:SIAHL
SUMMARY:Olympic Silver Bullets 2  @ Sofa King Embarrassing
LOCATION:Olympic
DESCRIPTION;ENCODING=8BIT:
 Play at Olympic =0D=0A
 SIAHL@OK Adult OK Adult OK Division 5 Silver Bullets 2 @Sofa King Embarrassing =0D=0A
DTSTART:20250730T041500Z
DTEND:20250730T053000Z
BEGIN:VALARM
UID:509df991-5d7a-4fbf-b580-82bd636c3155
DTSTAMP:20250713T080124Z
TRIGGER:-PT45M
DESCRIPTION:Event reminder
ACTION:DISPLAY
END:VALARM
END:VEVENT
BEGIN:VEVENT
UID:92a67d6f637aad82a5d966e3e805a140
DTSTAMP:20250713T080124Z
CATEGORIES:SIAHL
SUMMARY:NHL Sofa King Embarrassing  @ Oakland Reapers
LOCATION:NHL
DESCRIPTION;ENCODING=8BIT:
 Play at NHL =0D=0A
 SIAHL@OK Adult OK Adult OK Division 5 Sofa King Embarrassing @Oakland Reapers =0D=0A
DTSTART:20250612T054500Z
DTEND:20250612T070000Z
BEGIN:VALARM
UID:ae83c52f-628d-4dac-a734-0e8a02f1a37e
DTSTAMP:20250713T080124Z
TRIGGER:-PT45M
DESCRIPTION:Event reminder
ACTION:DISPLAY
END:VALARM
END:VEVENT
BEGIN:VEVENT
UID:bf5ec3807c4060ed5c2fe4f0feed58fd
DTSTAMP:20250713T080124Z
CATEGORIES:SIAHL
SUMMARY:NHL Sofa King Embarrassing  @ Lot Lizards
LOCATION:NHL
DESCRIPTION;ENCODING=8BIT:
 Play at NHL =0D=0A
 SIAHL@OK Adult OK Adult OK Division 5 Sofa King Embarrassing @Lot Lizards =0D=0A
DTSTART:20250714T044500Z
DTEND:20250714T060000Z
BEGIN:VALARM
UID:9778996b-4ce5-4aef-88a3-221485abe19b
DTSTAMP:20250713T080124Z
TRIGGER:-PT45M
DESCRIPTION:Event reminder
ACTION:DISPLAY
END:VALARM
END:VEVENT
END:VCALENDAR
"#;

const EXPECTED_RESPONSE: &str = r#"BEGIN:VCALENDAR
VERSION:2.0
PRODID:-//SIAHL//HockeyCalendar//EN
METHOD:PUBLISH
X-WR-CALNAME:TEAM:Sofa King Embarrassing
X-WR-RELCALID:7da15a194de3ffbe5cd554785af7a9a4
X-WR-TIMEZONE:US/Pacific
CALSCALE:GREGORIAN
LAST-MODIFIED:20250713T080124Z
BEGIN:VEVENT
DESCRIPTION;ENCODING=8BIT:Play at Olympic =0D=0ASIAHL@OK Adult OK Adult OK 
 Division 5 Silver Bullets 2 @Sofa King Embarrassing =0D=0A
DTEND:20250730T053000Z
DTSTAMP:20250713T080124Z
DTSTART:20250730T041500Z
LOCATION:Olympic
SUMMARY:[Leave Early - Fox show at 2025-07-29 19:00:00 PDT (Dropkick Mur
 phys and Bad Religion)] Olympic Silver Bullets 2  @ Sofa King Embarrassing
UID:4851287f81cca59620e3d6723a29d698
CATEGORIES:SIAHL
BEGIN:VALARM
ACTION:DISPLAY
DESCRIPTION:Event reminder
DTSTAMP:20250713T080124Z
TRIGGER:-PT45M
UID:509df991-5d7a-4fbf-b580-82bd636c3155
END:VALARM
END:VEVENT
BEGIN:VEVENT
DESCRIPTION;ENCODING=8BIT:Play at NHL =0D=0ASIAHL@OK Adult OK Adult OK Divi
 sion 5 Sofa King Embarrassing @Oakland Reapers =0D=0A
DTEND:20250612T070000Z
DTSTAMP:20250713T080124Z
DTSTART:20250612T054500Z
LOCATION:NHL
SUMMARY:NHL Sofa King Embarrassing  @ Oakland Reapers
UID:92a67d6f637aad82a5d966e3e805a140
CATEGORIES:SIAHL
BEGIN:VALARM
ACTION:DISPLAY
DESCRIPTION:Event reminder
DTSTAMP:20250713T080124Z
TRIGGER:-PT45M
UID:ae83c52f-628d-4dac-a734-0e8a02f1a37e
END:VALARM
END:VEVENT
BEGIN:VEVENT
DESCRIPTION;ENCODING=8BIT:Play at NHL =0D=0ASIAHL@OK Adult OK Adult OK Divi
 sion 5 Sofa King Embarrassing @Lot Lizards =0D=0A
DTEND:20250714T060000Z
DTSTAMP:20250713T080124Z
DTSTART:20250714T044500Z
LOCATION:NHL
SUMMARY:NHL Sofa King Embarrassing  @ Lot Lizards
UID:bf5ec3807c4060ed5c2fe4f0feed58fd
CATEGORIES:SIAHL
BEGIN:VALARM
ACTION:DISPLAY
DESCRIPTION:Event reminder
DTSTAMP:20250713T080124Z
TRIGGER:-PT45M
UID:9778996b-4ce5-4aef-88a3-221485abe19b
END:VALARM
END:VEVENT
END:VCALENDAR
"#;

fn ts(rfc3339: &str) -> i64 {
    chrono::DateTime::parse_from_rfc3339(rfc3339).unwrap().timestamp()
}

fn fox_shows() -> Vec<VenueEventInfo> {
    get_venue_events(vec![
        VenueEvent { name: "Dropkick Murphys and Bad Religion".to_string(), start: Some(ts("2025-07-30T02:00:00Z")) },
        VenueEvent { name: "Kevin Kaarl - Ultra Sodade Tour 2025".to_string(), start: Some(ts("2025-07-31T03:00:00Z")) },
        VenueEvent { name: "Ben Schwartz & Friends".to_string(), start: Some(ts("2025-08-03T02:00:00Z")) },
        VenueEvent { name: "Floating Points (LIVE) - Outside Lands Night Show".to_string(), start: Some(ts("2025-08-04T02:30:00Z")) },
        VenueEvent { name: "STRFKR".to_string(), start: Some(ts("2025-08-16T03:00:00Z")) },
        VenueEvent { name: "Primus - 2 DAY TICKET".to_string(), start: None },
    ])
}

fn summaries(annotated: AnnotatedCalendar) -> Vec<String> {
    let response = annotated.as_ical_response();
    let calendar: Calendar = response.body.parse().unwrap();
    calendar.components.iter().filter_map(|c| c.as_event()).map(|e| e.get_summary().unwrap().to_string()).collect()
}

const ONE_EVENT: &str = "BEGIN:VCALENDAR\nVERSION:2.0\nBEGIN:VEVENT\nUID:1\nDTSTAMP:20250713T080124Z\nSUMMARY:Game\nDTSTART@@\nEND:VEVENT\nEND:VCALENDAR\n";

fn one_event(start: &str) -> Calendar {
    parse_calendar(&ONE_EVENT.replace("@@", &format!(":{start}"))).unwrap()
}

fn single_show(name: &str, start: i64) -> Vec<VenueEventInfo> {
    get_venue_events(vec![VenueEvent { name: name.to_string(), start: Some(start) }])
}

#[test]
fn annotates_sample_calendar() {
    let calendar = parse_calendar(TEST_CAL_DATA).unwrap();
    let annotated = AnnotatedCalendar::get_annotated(calendar, fox_shows());
    let expected_first =
        "[Leave Early - Fox show at 2025-07-29 19:00:00 PDT (Dropkick Murphys and Bad Religion)] Olympic Silver Bullets 2  @ Sofa King Embarrassing"
            .to_string();
    assert_eq!(
        summaries(annotated),
        vec![
            expected_first,
            "NHL Sofa King Embarrassing  @ Oakland Reapers".to_string(),
            "NHL Sofa King Embarrassing  @ Lot Lizards".to_string(),
        ]
    );
}

#[test]
fn response_headers() {
    let calendar = parse_calendar(TEST_CAL_DATA).unwrap();
    let response = AnnotatedCalendar::get_annotated(calendar, Vec::new()).as_ical_response();
    assert_eq!(response.content_type, "text/Calendar; charset=utf-8");
    assert_eq!(response.content_disposition, "inline; filename=cal.ics");
    assert!(response.body.starts_with("BEGIN:VCALENDAR"));
    let reparsed: Calendar = response.body.parse().unwrap();
    assert_eq!(reparsed.components.len(), 3);
}

#[test]
fn labels_given_by_the_caller() {
    let calendar = one_event("20250730T041500Z");
    let shows = single_show("Act", ts("2025-07-30T02:00:00Z"));
    let labels = vec!["LABEL".to_string()];
    let annotated = AnnotatedCalendar::annotate_with_labels(calendar, &shows, &labels);
    assert_eq!(summaries(annotated), vec!["[Leave Early - Fox show at LABEL (Act)] Game".to_string()]);
}

#[test]
fn every_clashing_show_adds_a_note_latest_first() {
    let calendar = one_event("20250730T041500Z");
    let shows = get_venue_events(vec![
        VenueEvent { name: "Early".to_string(), start: Some(ts("2025-07-30T02:00:00Z")) },
        VenueEvent { name: "Late".to_string(), start: Some(ts("2025-07-30T06:00:00Z")) },
    ]);
    let labels = vec!["L1".to_string(), "L2".to_string()];
    let annotated = AnnotatedCalendar::annotate_with_labels(calendar, &shows, &labels);
    assert_eq!(
        summaries(annotated),
        vec!["[Leave Early - Fox show at L2 (Late)] [Leave Early - Fox show at L1 (Early)] Game".to_string()]
    );
}

#[test]
fn window_edges_are_inclusive() {
    let show = ts("2025-07-30T02:00:00Z");
    let labels = vec!["X".to_string()];
    for (start, clashes) in [
        ("20250729T230000Z", true),
        ("20250730T050000Z", true),
        ("20250729T225959Z", false),
        ("20250730T050001Z", false),
    ] {
        let annotated = AnnotatedCalendar::annotate_with_labels(one_event(start), &single_show("A", show), &labels);
        let got = summaries(annotated);
        assert_eq!(got[0].starts_with("[Leave Early"), clashes, "{start}");
    }
}

#[test]
fn date_only_start_counts_from_midnight_utc() {
    let start = Some(EventStart::Date { year: 2025, month: 7, day: 30 });
    assert_eq!(game_start(&start), Some((1753833600, 0)));
    assert_eq!(game_start(&Some(EventStart::Date { year: 1970, month: 1, day: 1 })), Some((0, 0)));
    assert_eq!(game_start(&Some(EventStart::Date { year: 2000, month: 2, day: 29 })), Some((951782400, 0)));
    assert_eq!(game_start(&Some(EventStart::Date { year: 1969, month: 12, day: 31 })), Some((-86400, 0)));
    let calendar = one_event("20250730");
    let labels = vec!["X".to_string()];
    let annotated = AnnotatedCalendar::annotate_with_labels(calendar, &single_show("A", ts("2025-07-29T22:00:00Z")), &labels);
    assert_eq!(summaries(annotated), vec!["[Leave Early - Fox show at X (A)] Game".to_string()]);
}

#[test]
fn zoned_and_floating_starts() {
    // 2025-07-29T19:00:00 wall-clock in Los Angeles is 2025-07-30T02:00:00Z.
    let local = ts("2025-07-29T19:00:00Z");
    let zoned = Some(EventStart::Zoned { local, nanos: 0, tzid: "America/Los_Angeles".to_string() });
    assert_eq!(game_start(&zoned), Some((ts("2025-07-30T02:00:00Z"), 0)));
    let unknown = Some(EventStart::Zoned { local, nanos: 0, tzid: "Nowhere/Special".to_string() });
    assert_eq!(game_start(&unknown), None);
    // 02:30 on 2025-03-09 does not occur in Los Angeles.
    let gap = Some(EventStart::Zoned { local: ts("2025-03-09T02:30:00Z"), nanos: 0, tzid: "America/Los_Angeles".to_string() });
    assert_eq!(game_start(&gap), None);
    assert_eq!(game_start(&Some(EventStart::Floating { local })), None);
    assert_eq!(game_start(&Some(EventStart::Utc { timestamp: 5, nanos: 7 })), Some((5, 7)));
    assert_eq!(game_start(&None), None);
}

#[test]
fn zoned_event_in_calendar() {
    let calendar = parse_calendar(&ONE_EVENT.replace("@@", ";TZID=America/Los_Angeles:20250729T190000")).unwrap();
    let labels = vec!["X".to_string()];
    let annotated = AnnotatedCalendar::annotate_with_labels(calendar, &single_show("A", ts("2025-07-30T04:00:00Z")), &labels);
    assert_eq!(summaries(annotated), vec!["[Leave Early - Fox show at X (A)] Game".to_string()]);
}

#[test]
fn refuses_what_would_panic() {
    let shows = single_show("A", ts("2025-07-30T02:00:00Z"));
    // A floating start cannot be placed in UTC.
    assert!(!is_annotatable(&one_event("20250730T041500"), &shows));
    assert!(AnnotatedCalendar::try_get_annotated(one_event("20250730T041500"), shows).is_none());
    // A clashing event without a summary.
    let no_summary = parse_calendar(&ONE_EVENT.replace("SUMMARY:Game\n", "").replace("@@", ":20250730T041500Z")).unwrap();
    let shows = single_show("A", ts("2025-07-30T02:00:00Z"));
    assert!(!is_annotatable(&no_summary, &shows));
    // The same event far from any show is fine, and stays without a summary.
    let far = single_show("A", ts("2025-09-30T02:00:00Z"));
    assert!(is_annotatable(&no_summary, &far));
    let annotated = AnnotatedCalendar::try_get_annotated(no_summary, far).unwrap();
    let body = annotated.as_ical_response().body;
    assert!(!body.contains("SUMMARY"));
}

#[test]
fn try_get_annotated_agrees_with_get_annotated() {
    let calendar = parse_calendar(TEST_CAL_DATA).unwrap();
    let annotated = AnnotatedCalendar::try_get_annotated(calendar, fox_shows()).unwrap();
    assert!(summaries(annotated)[0].contains("(Dropkick Murphys and Bad Religion)] Olympic"));
}

#[test]
fn refuses_unparseable_text() {
    assert!(parse_calendar("this is not a calendar").is_err());
}

#[test]
fn note_text() {
    assert_eq!(leave_early_summary("T", "Band", "Game"), "[Leave Early - Fox show at T (Band)] Game");
    let labels = pacific_time_labels(&fox_shows());
    assert_eq!(labels.len(), 5);
    assert_eq!(labels[0], "2025-07-29 19:00:00 PDT");
    assert_eq!(labels[1], "2025-07-30 20:00:00 PDT");
    let winter = pacific_time_labels(&single_show("W", ts("2025-12-31T04:00:00Z")));
    assert_eq!(winter[0], "2025-12-30 20:00:00 PST");
}

#[test]
fn no_shows_change_nothing() {
    let calendar = parse_calendar(TEST_CAL_DATA).unwrap();
    let annotated = AnnotatedCalendar::get_annotated(calendar, Vec::new());
    assert_eq!(
        summaries(annotated),
        vec![
            "Olympic Silver Bullets 2  @ Sofa King Embarrassing".to_string(),
            "NHL Sofa King Embarrassing  @ Oakland Reapers".to_string(),
            "NHL Sofa King Embarrassing  @ Lot Lizards".to_string(),
        ]
    );
}

#[test]
fn leap_second_start_after_the_window() {
    // The window of a show at 02:00:00Z ends at 05:00:00Z; a game at the leap
    // second 04:59:60Z starts before that end, one at 05:00:60Z would be after.
    let calendar = one_event("20250730T045960Z");
    let labels = vec!["X".to_string()];
    let shows = single_show("A", ts("2025-07-30T01:59:59Z"));
    // That show's window ends at 04:59:59Z, before the leap second.
    let annotated = AnnotatedCalendar::annotate_with_labels(calendar, &shows, &labels);
    assert_eq!(summaries(annotated), vec!["Game".to_string()]);
    let calendar = one_event("20250730T045960Z");
    let annotated = AnnotatedCalendar::annotate_with_labels(calendar, &single_show("A", ts("2025-07-30T02:00:00Z")), &labels);
    assert_eq!(summaries(annotated), vec!["[Leave Early - Fox show at X (A)] Game".to_string()]);
}

#[test]
fn body_reads_back_to_the_annotated_calendar() {
    let calendar = parse_calendar(TEST_CAL_DATA).unwrap();
    let body = AnnotatedCalendar::get_annotated(calendar, fox_shows()).as_ical_response().body;
    let expected = EXPECTED_RESPONSE.parse::<Calendar>().unwrap();
    let got: Calendar = body.parse().unwrap();
    assert_eq!(got, expected);
}

#[test]
fn reordered_listing_gives_the_same_calendar() {
    let mk = |order: &[usize]| {
        let all = [
            ("Dropkick Murphys and Bad Religion", "2025-07-30T02:00:00Z"),
            ("Kevin Kaarl - Ultra Sodade Tour 2025", "2025-07-31T03:00:00Z"),
            ("STRFKR", "2025-08-16T03:00:00Z"),
        ];
        let events = order.iter().map(|&k| VenueEvent { name: all[k].0.to_string(), start: Some(ts(all[k].1)) }).collect();
        let calendar = parse_calendar(TEST_CAL_DATA).unwrap();
        AnnotatedCalendar::get_annotated(calendar, get_venue_events(events)).as_ical_response().body.parse::<Calendar>().unwrap()
    };
    assert_eq!(mk(&[0, 1, 2]), mk(&[2, 0, 1]));
}

const STAMPED_WITH_ESCAPES: &str = "BEGIN:VCALENDAR\nVERSION:2.0\nPRODID:-//Test//EN\nBEGIN:VEVENT\nUID:1\nDTSTAMP:20250713T080124Z\nSUMMARY:Game\\, early\\; bring skates\nDESCRIPTION:Rink A\\, level 2\\\\3\nDTSTART:20250730T041500Z\nEND:VEVENT\nEND:VCALENDAR\n";

#[test]
fn escaped_commas_read_back() {
    let calendar = parse_calendar(STAMPED_WITH_ESCAPES).unwrap();
    let event = calendar.components[0].as_event().unwrap();
    assert_eq!(event.get_summary(), Some("Game, early; bring skates"));
    assert_eq!(event.get_description(), Some("Rink A, level 2\\3"));
    let original = parse_calendar(STAMPED_WITH_ESCAPES).unwrap();
    let body = AnnotatedCalendar::get_annotated(calendar, Vec::new()).as_ical_response().body;
    let got: Calendar = body.parse().unwrap();
    assert_eq!(got, original);
}

#[test]
fn parameter_across_a_line_break_reads_back() {
    let text = "BEGIN:VCALENDAR\nVERSION:2.0\nBEGIN:VEVENT\nUID:1\nDTSTAMP:20250713T080124Z\nSUMMARY:Game\nDTSTART;X-NOTE=a\nb:20250730T041500Z\nEND:VEVENT\nEND:VCALENDAR\n";
    let calendar = parse_calendar(text).unwrap();
    let original = parse_calendar(text).unwrap();
    let body = AnnotatedCalendar::get_annotated(calendar, Vec::new()).as_ical_response().body;
    let got: Calendar = body.parse().unwrap();
    assert_eq!(got, original);
}

#[test]
fn annotated_summary_reads_back_with_its_note() {
    let calendar = parse_calendar(STAMPED_WITH_ESCAPES).unwrap();
    let shows = single_show("Band, with; marks", ts("2025-07-30T02:00:00Z"));
    let annotated = AnnotatedCalendar::get_annotated(calendar, shows);
    let direct = annotated.calendar().to_string().parse::<Calendar>().unwrap();
    let event = annotated.calendar().components[0].as_event().unwrap();
    assert_eq!(
        event.get_summary(),
        Some("[Leave Early - Fox show at 2025-07-29 19:00:00 PDT (Band, with; marks)] Game, early; bring skates")
    );
    let body = annotated.as_ical_response().body;
    let got: Calendar = body.parse().unwrap();
    assert_eq!(got, direct);
    let got_event = got.components[0].as_event().unwrap();
    assert_eq!(got_event.get_description(), Some("Rink A, level 2\\3"));
}
