//! Unicode general categories, as the sanitizer reads them.

use vstd::prelude::*;

verus! {

/// A Unicode general category. The variants are listed in the order in
/// which `unicode_general_category::GeneralCategory` declares them.
#[derive(PartialEq, Eq, Structural, Clone, Copy, Debug)]
pub enum Category {
    ClosePunctuation,
    ConnectorPunctuation,
    Control,
    CurrencySymbol,
    DashPunctuation,
    DecimalNumber,
    EnclosingMark,
    FinalPunctuation,
    Format,
    InitialPunctuation,
    LetterNumber,
    LineSeparator,
    LowercaseLetter,
    MathSymbol,
    ModifierLetter,
    ModifierSymbol,
    NonspacingMark,
    OpenPunctuation,
    OtherLetter,
    OtherNumber,
    OtherPunctuation,
    OtherSymbol,
    ParagraphSeparator,
    PrivateUse,
    SpaceSeparator,
    SpacingMark,
    Surrogate,
    TitlecaseLetter,
    Unassigned,
    UppercaseLetter,
}

/// The position of the Unicode general category of `c` among the variants
/// of `unicode_general_category::GeneralCategory`, in declaration order
/// (`ClosePunctuation` is 0, `UppercaseLetter` is 29).
pub uninterp spec fn category_index(c: char) -> u8;

/// Relies on unicode_general_category's `get_general_category`; the
/// category is handed back as its position in the declaration of
/// `GeneralCategory`, which lists 30 fieldless variants.
#[verifier::external_body]
fn general_category_index(c: char) -> (r: u8)
    ensures
        r == category_index(c),
        r < 30,
{
    unicode_general_category::get_general_category(c) as u8
}

/// The category at position `i` of the declaration order.
pub open spec fn category_at(i: u8) -> Category {
        if i == 0 { Category::ClosePunctuation }
        else if i == 1 { Category::ConnectorPunctuation }
        else if i == 2 { Category::Control }
        else if i == 3 { Category::CurrencySymbol }
        else if i == 4 { Category::DashPunctuation }
        else if i == 5 { Category::DecimalNumber }
        else if i == 6 { Category::EnclosingMark }
        else if i == 7 { Category::FinalPunctuation }
        else if i == 8 { Category::Format }
        else if i == 9 { Category::InitialPunctuation }
        else if i == 10 { Category::LetterNumber }
        else if i == 11 { Category::LineSeparator }
        else if i == 12 { Category::LowercaseLetter }
        else if i == 13 { Category::MathSymbol }
        else if i == 14 { Category::ModifierLetter }
        else if i == 15 { Category::ModifierSymbol }
        else if i == 16 { Category::NonspacingMark }
        else if i == 17 { Category::OpenPunctuation }
        else if i == 18 { Category::OtherLetter }
        else if i == 19 { Category::OtherNumber }
        else if i == 20 { Category::OtherPunctuation }
        else if i == 21 { Category::OtherSymbol }
        else if i == 22 { Category::ParagraphSeparator }
        else if i == 23 { Category::PrivateUse }
        else if i == 24 { Category::SpaceSeparator }
        else if i == 25 { Category::SpacingMark }
        else if i == 26 { Category::Surrogate }
        else if i == 27 { Category::TitlecaseLetter }
        else if i == 28 { Category::Unassigned }
        else { Category::UppercaseLetter }
}

/// The general category of `c`.
pub open spec fn category_of(c: char) -> Category {
    category_at(category_index(c))
}

/// The category at position `i` of the declaration order.
pub fn category_from_index(i: u8) -> (r: Category)
    requires
        i < 30,
    ensures
        r == category_at(i),
{
        if i == 0 { Category::ClosePunctuation }
        else if i == 1 { Category::ConnectorPunctuation }
        else if i == 2 { Category::Control }
        else if i == 3 { Category::CurrencySymbol }
        else if i == 4 { Category::DashPunctuation }
        else if i == 5 { Category::DecimalNumber }
        else if i == 6 { Category::EnclosingMark }
        else if i == 7 { Category::FinalPunctuation }
        else if i == 8 { Category::Format }
        else if i == 9 { Category::InitialPunctuation }
        else if i == 10 { Category::LetterNumber }
        else if i == 11 { Category::LineSeparator }
        else if i == 12 { Category::LowercaseLetter }
        else if i == 13 { Category::MathSymbol }
        else if i == 14 { Category::ModifierLetter }
        else if i == 15 { Category::ModifierSymbol }
        else if i == 16 { Category::NonspacingMark }
        else if i == 17 { Category::OpenPunctuation }
        else if i == 18 { Category::OtherLetter }
        else if i == 19 { Category::OtherNumber }
        else if i == 20 { Category::OtherPunctuation }
        else if i == 21 { Category::OtherSymbol }
        else if i == 22 { Category::ParagraphSeparator }
        else if i == 23 { Category::PrivateUse }
        else if i == 24 { Category::SpaceSeparator }
        else if i == 25 { Category::SpacingMark }
        else if i == 26 { Category::Surrogate }
        else if i == 27 { Category::TitlecaseLetter }
        else if i == 28 { Category::Unassigned }
        else { Category::UppercaseLetter }
}

/// The general category of `c`.
pub fn general_category(c: char) -> (r: Category)
    ensures
        r == category_of(c),
{
    category_from_index(general_category_index(c))
}

/// Control, format, surrogate and private-use code points and the three kinds
/// of marks: the categories restricted names drop.
pub open spec fn removed_category(cat: Category) -> bool {
    cat == Category::Control || cat == Category::Format || cat == Category::Surrogate
        || cat == Category::PrivateUse || cat == Category::SpacingMark || cat
        == Category::EnclosingMark || cat == Category::NonspacingMark
}

/// Whether restricted names drop characters of category `cat`.
pub fn is_cm(cat: Category) -> (r: bool)
    ensures
        r == removed_category(cat),
{
    match cat {
        Category::Control | Category::Format | Category::Surrogate | Category::PrivateUse
        | Category::SpacingMark | Category::EnclosingMark | Category::NonspacingMark => true,
        _ => false,
    }
}

} // verus!
