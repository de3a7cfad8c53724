use archiver::category::{general_category, is_cm, Category};
use archiver::sanitize::{replace_insane, replace_with_category, sanitize, sanitize_normalized};

fn s(x: &str, restricted: bool) -> String {
    sanitize(x.to_string(), restricted)
}

#[test]
fn colon_becomes_underscore_hyphen_when_restricted() {
    assert_eq!(s("Foo: Bar", true), "Foo_-_Bar");
}

#[test]
fn empty_title_becomes_underscore() {
    assert_eq!(s("", true), "_");
    assert_eq!(s("", false), "_");
}

#[test]
fn leading_dots_are_stripped() {
    assert_eq!(s("...hidden", true), "hidden");
    assert_eq!(s("...hidden", false), "hidden");
}

#[test]
fn slash_gets_fullwidth_lookalike_when_unrestricted() {
    assert_eq!(s("a//b", false), "a\u{29f8}\u{29f8}b");
}

#[test]
fn reserved_characters_unrestricted_become_lookalikes() {
    assert_eq!(
        s("\"*:<>?|/\\", false),
        "\u{ff02}\u{ff0a}\u{ff1a}\u{ff1c}\u{ff1e}\u{ff1f}\u{ff5c}\u{29f8}\u{29f9}"
    );
    assert_eq!(s("My: Video?", false), "My\u{ff1a} Video\u{ff1f}");
}

#[test]
fn reserved_characters_restricted_collapse_to_underscore() {
    assert_eq!(s("\"*:<>?|/\\", true), "_");
}

#[test]
fn timestamps_keep_their_digits() {
    assert_eq!(s("Live 12:34:56", false), "Live 12_34_56");
    assert_eq!(s("Live 12:34:56", true), "Live_2_34_56");
}

#[test]
fn accents_fold_to_ascii_when_restricted() {
    assert_eq!(s("Cr\u{e8}me Br\u{fb}l\u{e9}e", true), "Creme_Brulee");
    assert_eq!(s("Cr\u{e8}me Br\u{fb}l\u{e9}e", false), "Cr\u{e8}me Br\u{fb}l\u{e9}e");
    assert_eq!(s("\u{c6}\u{d8}\u{c5}", true), "AEOA");
    assert_eq!(s("Stra\u{df}e", true), "Strasse");
    assert_eq!(s("\u{de}orn", true), "THorn");
    assert_eq!(s("\u{dc}n\u{ef}c\u{f6}d\u{e9} & more", true), "Unicode_more");
}

#[test]
fn restricted_names_are_normalized_first() {
    assert_eq!(s("\u{fb01}le", true), "file");
    assert_eq!(s("\u{fb01}le", false), "\u{fb01}le");
}

#[test]
fn restricted_drops_format_characters_and_replaces_other_non_ascii() {
    assert_eq!(s("a\u{200b}b", true), "ab");
    assert_eq!(s("a\u{3bb}b", true), "a_b");
    assert_eq!(s("\u{65e5}\u{672c}\u{8a9e} mixed \u{30c6}\u{30ad}\u{30b9}\u{30c8}", true), "mixed");
}

#[test]
fn punctuation_and_spaces_restricted() {
    assert_eq!(s("Stream #1 [VOD] (part 2)!", true), "Stream_VOD_part_2");
}

#[test]
fn newline_becomes_space_when_unrestricted() {
    assert_eq!(s("Line\nBreak", false), "Line Break");
}

#[test]
fn whitespace_only_titles() {
    assert_eq!(s("   ", false), "_");
    assert_eq!(s("   ", true), "_");
}

#[test]
fn underscores_collapse() {
    assert_eq!(s("x__y", false), "x_y");
}

#[test]
fn leading_dash_handling() {
    assert_eq!(s("-_a", true), "a");
    assert_eq!(s("-_a", false), "__a");
    assert_eq!(s("-a", false), "_a");
}

#[test]
fn sanitizing_twice_changes_nothing_on_the_corpus() {
    let corpus = [
        "",
        "   ",
        "\t \n ",
        "\"*:<>?|/\\",
        "Foo: Bar",
        "Live 12:34:56",
        "\u{65e5}\u{672c}\u{8a9e} mixed \u{30c6}\u{30ad}\u{30b9}\u{30c8}",
        "\u{41f}\u{440}\u{438}\u{432}\u{435}\u{442} world \u{1f600}",
        "Cr\u{e8}me Br\u{fb}l\u{e9}e",
        "...hidden",
        "Stream #1 [VOD] (part 2)!",
    ];
    for x in corpus {
        for r in [true, false] {
            let once = s(x, r);
            assert_eq!(sanitize(once.clone(), r), once, "input {x:?} restricted {r}");
        }
    }
}

#[test]
fn names_starting_with_underscore_may_shrink_on_a_second_pass() {
    let once = s("-_a", false);
    assert_eq!(once, "__a");
    assert_eq!(sanitize(once, false), "a");
}

#[test]
fn normalized_entry_point_skips_normalization() {
    assert_eq!(sanitize_normalized("\u{fb01}le", true), "le");
    assert_eq!(sanitize_normalized("Foo: Bar", true), "Foo_-_Bar");
}

#[test]
fn replacement_table_entries() {
    assert_eq!(replace_insane(':', true), vec![(true, '_'), (true, '-')]);
    assert_eq!(replace_insane(':', false), vec![(false, '\u{ff1a}')]);
    assert_eq!(replace_insane('?', true), vec![]);
    assert_eq!(replace_insane('\u{c6}', true), vec![(false, 'A'), (false, 'E')]);
    assert_eq!(replace_insane('x', true), vec![(false, 'x')]);
    assert_eq!(replace_insane('\n', false), vec![(true, ' ')]);
}

#[test]
fn general_categories_of_sample_characters() {
    assert_eq!(general_category('a'), Category::LowercaseLetter);
    assert_eq!(general_category('A'), Category::UppercaseLetter);
    assert_eq!(general_category(')'), Category::ClosePunctuation);
    assert_eq!(general_category('\u{20dd}'), Category::EnclosingMark);
    assert_eq!(general_category('\u{301}'), Category::NonspacingMark);
    assert_eq!(general_category('\u{200b}'), Category::Format);
    assert_eq!(general_category('\u{e000}'), Category::PrivateUse);
    assert_eq!(general_category('\u{65e5}'), Category::OtherLetter);
    assert_eq!(general_category('\u{378}'), Category::Unassigned);
    assert!(is_cm(Category::EnclosingMark));
    assert!(is_cm(Category::Control));
    assert!(!is_cm(Category::OtherLetter));
    assert!(!is_cm(Category::SpaceSeparator));
}

#[test]
fn restricted_table_by_category() {
    assert_eq!(replace_with_category('\u{20dd}', true, Category::EnclosingMark), vec![]);
    assert_eq!(replace_with_category('\u{65e5}', true, Category::OtherLetter), vec![(true, '_')]);
    assert_eq!(replace_with_category('\u{65e5}', false, Category::OtherLetter), vec![(false, '\u{65e5}')]);
    assert_eq!(replace_with_category('x', true, Category::EnclosingMark), vec![(false, 'x')]);
}

#[test]
fn restricted_names_drop_enclosing_marks_and_replace_cjk() {
    assert_eq!(s("a\u{20dd}b", true), "ab");
    assert_eq!(s("a\u{20dd}b", false), "a\u{20dd}b");
    assert_eq!(s("Title \u{65e5}\u{672c}", true), "Title");
    assert_eq!(s("\u{65e5}x\u{672c}", true), "x");
}
