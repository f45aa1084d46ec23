use roothold::dialog::{Dialog, Notice, Stage};
use roothold::input::{is_yes_answer, parse_entry_u32, parse_entry_u8};
use roothold::seeds::NoiseSeeds;
use roothold::world::world_side;

#[test]
fn entries_as_u8() {
    assert_eq!(parse_entry_u8("42\n"), Some(42));
    assert_eq!(parse_entry_u8("  7 \r\n"), Some(7));
    assert_eq!(parse_entry_u8("+7"), Some(7));
    assert_eq!(parse_entry_u8("007"), Some(7));
    assert_eq!(parse_entry_u8("255"), Some(255));
    assert_eq!(parse_entry_u8("256"), None);
    assert_eq!(parse_entry_u8("99999999999999999999"), None);
    assert_eq!(parse_entry_u8(""), None);
    assert_eq!(parse_entry_u8("\n"), None);
    assert_eq!(parse_entry_u8("+"), None);
    assert_eq!(parse_entry_u8("-1"), None);
    assert_eq!(parse_entry_u8("4 2"), None);
    assert_eq!(parse_entry_u8("x"), None);
    assert_eq!(parse_entry_u8("\u{3000}5\u{a0}"), Some(5));
}

#[test]
fn entries_match_std_parsing() {
    for text in ["0", "12", " 12 ", "+", "++1", "-0", "300", "1e3", "\t9\n", "٣", "0000000000000000001"] {
        assert_eq!(parse_entry_u8(text), text.trim().parse::<u8>().ok(), "{:?}", text);
        assert_eq!(parse_entry_u32(text), text.trim().parse::<u32>().ok(), "{:?}", text);
    }
}

#[test]
fn entries_as_u32() {
    assert_eq!(parse_entry_u32("4294967295"), Some(u32::MAX));
    assert_eq!(parse_entry_u32("4294967296"), None);
    assert_eq!(parse_entry_u32("50\n"), Some(50));
    assert_eq!(parse_entry_u32("abc"), None);
}

#[test]
fn yes_answers() {
    assert!(is_yes_answer("y\n"));
    assert!(is_yes_answer("  y "));
    assert!(!is_yes_answer("Y"));
    assert!(!is_yes_answer("yes"));
    assert!(!is_yes_answer(""));
}

#[test]
fn dialog_with_chosen_seed() {
    let mut d = Dialog::new();
    assert_eq!(Dialog::opening_notices(), vec![Notice::ModeMenu, Notice::ModeRequest]);
    assert_eq!(d.advance("abc\n"), vec![Notice::NotANumber]);
    assert_eq!(d.stage, Stage::Mode);
    assert_eq!(d.advance("9\n"), vec![Notice::ModeRequest]);
    assert_eq!(d.stage, Stage::Mode);
    assert_eq!(d.advance("2\n"), vec![Notice::ScaleMenu]);
    assert_eq!(d.settings.mode, 1);
    assert_eq!(d.stage, Stage::Scale);
    assert_eq!(d.advance("-5\n"), vec![Notice::NotAPositiveNumber]);
    assert_eq!(d.advance("120\n"), vec![Notice::SeedQuestion]);
    assert_eq!(d.settings.scale, 120);
    assert_eq!(d.advance("y\n"), vec![Notice::SeedValuePrompt]);
    assert_eq!(d.advance("seed\n"), vec![Notice::NotAPositiveNumber]);
    assert_eq!(d.advance("12345\n"), vec![Notice::CivSizeMenu]);
    assert_eq!(d.settings.seed, 12345);
    assert_eq!(d.stage, Stage::CivSize);
    assert_eq!(d.advance("big\n"), vec![Notice::CivSizeRetry]);
    assert_eq!(d.advance("9\n"), Vec::<Notice>::new());
    assert_eq!(d.stage, Stage::CivSize);
    assert_eq!(d.settings.civ_size, 9);
    assert!(!d.is_done());
    assert_eq!(d.advance("6\n"), Vec::<Notice>::new());
    assert!(d.is_done());
    assert_eq!(d.settings.civ_size, 6);
    let before = d;
    assert_eq!(d.advance("7\n"), Vec::<Notice>::new());
    assert_eq!(d, before);
}

#[test]
fn dialog_with_drawn_seed() {
    let mut d = Dialog::new();
    d.advance("1");
    d.advance("50");
    assert_eq!(d.stage, Stage::SeedChoice);
    let mut e = d;
    assert_eq!(e.advance_with("\n", 777), vec![Notice::CivSizeMenu]);
    assert_eq!(e.settings.seed, 777);
    let mut f = d;
    assert_eq!(f.advance_with("n\n", 31), vec![Notice::CivSizeMenu]);
    assert_eq!(f.settings.seed, 31);
    let mut g = d;
    assert_eq!(g.advance("\n"), vec![Notice::CivSizeMenu]);
    assert_eq!(g.stage, Stage::CivSize);
}

fn run(lines: &[&str]) -> Dialog {
    let mut d = Dialog::new();
    for line in lines {
        d.advance_with(line, 0);
    }
    d
}

#[test]
fn size_answers_outside_the_menu_are_asked_again() {
    let mut d = Dialog::new();
    for line in ["5", "0", "9", "255"] {
        assert_eq!(d.advance(line), vec![Notice::ModeRequest]);
        assert_eq!(d.stage, Stage::Mode);
        assert_eq!(d.settings.mode, 5);
    }
    assert_eq!(d.advance("1"), vec![Notice::ScaleMenu]);
    assert_eq!(d.settings.mode, 0);
}

#[test]
fn fifth_menu_entry_is_asked_again() {
    let d = run(&["5", "1", "50", "y", "7", "6"]);
    assert!(d.is_done());
    assert_eq!((d.settings.mode, d.settings.scale, d.settings.seed, d.settings.civ_size), (0, 50, 7, 6));
}

#[test]
fn zero_size_answer_is_asked_again() {
    let d = run(&["0", "2", "50", "y", "1", "4"]);
    assert!(d.is_done());
    assert_eq!((d.settings.mode, d.settings.scale, d.settings.seed, d.settings.civ_size), (1, 50, 1, 4));
}

#[test]
fn scale_must_be_positive() {
    let mut d = Dialog::new();
    d.advance("1");
    assert_eq!(d.advance("0"), vec![Notice::NotAPositiveNumber]);
    assert_eq!(d.stage, Stage::Scale);
    let d = run(&["1", "0", "-3", "abc", "120", "y", "9", "4"]);
    assert!(d.is_done());
    assert_eq!((d.settings.mode, d.settings.scale, d.settings.seed, d.settings.civ_size), (0, 120, 9, 4));
}

#[test]
fn seed_zero_is_accepted() {
    let d = run(&["3", "20", "y", "0", "8"]);
    assert!(d.is_done());
    assert_eq!((d.settings.mode, d.settings.scale, d.settings.seed, d.settings.civ_size), (2, 20, 0, 8));
}

#[test]
fn notice_texts() {
    assert_eq!(Notice::ModeRequest.text(), "Enter a number (1-4):");
    assert_eq!(Notice::NotANumber.text(), "Enter a number!");
    assert_eq!(Notice::SeedQuestion.text(), "Choose your own seed [y/N]: ");
    assert!(Notice::ModeMenu.text().starts_with("Getting Mode.\n1: Tiny (256 by 256)"));
    assert!(Notice::CivSizeMenu.text().contains("Maximum is 8 by 8, minimum is 4 by 4."));
    assert_eq!(Notice::CivSizeRetry.text(), "Enter a number inbetween 4 and 8 inclusive.");
}

#[test]
fn noise_seeds_mix_in_constants() {
    let s = NoiseSeeds::new(0);
    assert_eq!(s.mineral, 0x12345678);
    assert_eq!(s.temp, 0xCE1C_FA5E);
    assert_eq!(s.moisture, 0xABCD_EF12);
    let t = NoiseSeeds::new(0xFFFF_FFFF);
    assert_eq!(t.mineral, !0x12345678u32);
    assert_ne!(t.mineral, t.temp);
    assert_ne!(t.temp, t.moisture);
}

#[test]
fn menu_entries_pick_listed_sides() {
    for (entry, side) in [("1", 256u32), ("2", 512), ("3", 1024), ("4", 1536)] {
        let mut d = Dialog::new();
        d.advance(entry);
        assert_eq!(d.stage, Stage::Scale);
        assert_eq!(world_side(d.settings.mode), Some(side));
    }
}

#[test]
fn drawn_seed_matters_only_for_the_seed_question() {
    let mut a = Dialog::new();
    let mut b = Dialog::new();
    assert_eq!(a.advance_with("3", 1), b.advance_with("3", 2));
    assert_eq!(a, b);
    assert_eq!(a.advance_with("20", 1), b.advance_with("20", 2));
    assert_eq!(a, b);
    a.advance_with("", 1);
    b.advance_with("", 2);
    assert_eq!((a.settings.seed, b.settings.seed), (1, 2));
}
