use firefly_runtime::connection::intro_from_stats_file;
use firefly_runtime::graphics::{draw_text_args, TextError};
use firefly_runtime::net::NetcodeError;
use firefly_runtime::scores::{AppStats, BadgeProgress};
use firefly_runtime::stats::{StatsMessage, StatsTracker};

#[test]
fn text_arguments() {
    // A leading byte, then 12 bytes of font (marker, encoding 0, 6x9 chars, baseline 7,
    // image width 16), then the text.
    let mut mem2 = vec![7u8, 0, 0, 6, 9, 7, 16, 0, 0, 0, 0, 0, 0];
    mem2.extend_from_slice(b"hi!");
    let args = draw_text_args(&mem2, 13, 3, 1, 12, 2).ok().unwrap();
    assert_eq!(args.text, "hi!");
    assert_eq!(args.font.len(), 12);
    assert_eq!(args.header.char_width, 6);
    assert_eq!(args.header.char_height, 9);
    assert_eq!(args.header.image_width, 16);
    assert_eq!(args.color, 1);
    assert!(matches!(draw_text_args(&mem2, 13, 30, 1, 12, 2), Err(TextError::OomPointer)));
    assert!(matches!(draw_text_args(&mem2, 13, 3, 0, 12, 2), Err(TextError::NilFont)));
    assert!(matches!(draw_text_args(&mem2, 13, 3, 1, 40, 2), Err(TextError::OomPointer)));
    assert!(matches!(draw_text_args(&mem2, 13, 3, 1, 5, 2), Err(TextError::Font("font is too short"))));
    assert!(matches!(draw_text_args(&mem2, 13, 3, 1, 12, 0), Err(TextError::NoneColor)));
    mem2.push(0xff);
    assert!(matches!(draw_text_args(&mem2, 13, 4, 1, 12, 2), Err(TextError::NotUtf8)));
    assert_eq!(TextError::NilFont.message(), "font is a nil pointer: make sure you've loaded it");
    assert_eq!(TextError::Font("unknown mapping").message(), "unknown mapping");
}

#[test]
fn intros_from_stats_files() {
    let stats = Some(AppStats {
        badges: vec![BadgeProgress { new: false, done: 3, goal: 5 }],
        scores: vec![],
    });
    let intro = intro_from_stats_file(Some(10), &stats, vec![1, 2], 7).ok().unwrap();
    assert_eq!(intro.badges, vec![3]);
    assert!(intro.scores.is_empty());
    assert_eq!(intro.stash, vec![1, 2]);
    assert_eq!(intro.seed, 7);
    let intro = intro_from_stats_file(None, &None, vec![], 9).ok().unwrap();
    assert!(intro.badges.is_empty() && intro.scores.is_empty());
    assert!(matches!(
        intro_from_stats_file(Some(0), &stats, vec![], 1),
        Err(NetcodeError::StatsError("file is empty"))
    ));
    assert!(matches!(
        intro_from_stats_file(Some(4), &None, vec![], 1),
        Err(NetcodeError::StatsError("cannot decode stats"))
    ));
    assert_eq!(NetcodeError::StatsError("file is empty").message(), "file is empty");
}

#[test]
fn stats_repeat_every_period() {
    let mut stats = StatsTracker::new(0);
    let mut kinds = Vec::new();
    for k in 1..=180u32 {
        if let Some(m) = stats.as_message(0) {
            let kind = match m {
                StatsMessage::Cpu { .. } => 'c',
                StatsMessage::Fuel(_, _) => 'f',
                StatsMessage::Memory { .. } => 'm',
            };
            kinds.push((k, kind));
        }
    }
    let want = vec![
        (63, 'c'), (65, 'f'), (67, 'f'), (72, 'm'),
        (123, 'c'), (125, 'f'), (127, 'f'), (132, 'm'),
    ];
    assert_eq!(kinds, want);
}
