//! The categories that the browser starts with, and the blocks they are made of.

use crate::blocks::UnicodeBlock;
use crate::categories::{
    Category, Classifier, UnicodeCategory, UnicodeCollection, UnicodeMultiBlock,
};
use crate::properties::PropertyType;
use crate::text::to_chars;
use vstd::prelude::*;

verus! {

/// The categories that the browser starts with, in the order in which they
/// are offered: those defined by a property, then the unions of blocks, then
/// the single blocks.
pub open spec fn default_categories() -> Seq<(Seq<char>, Classifier)> {
    seq![
        ("Uppercase Letters"@, Classifier::Property(PropertyType::UppercaseLetters)),
        ("Lowercase Letters"@, Classifier::Property(PropertyType::LowercaseLetters)),
        ("All Letters"@, Classifier::Property(PropertyType::AllLetters)),
        ("Math Symbols"@, Classifier::Property(PropertyType::MathSymbols)),
        ("Punctuation"@, Classifier::Property(PropertyType::Punctuation)),
        ("Decimal Numbers"@, Classifier::Property(PropertyType::DecimalNumbers)),
        ("All Numbers"@, Classifier::Property(PropertyType::AllNumbers)),
        ("All Symbols"@, Classifier::Property(PropertyType::AllSymbols)),
        ("Latin"@, Classifier::Union(
            seq![
                // Basic Latin
                UnicodeBlock { start: 0x0000, end: 0x007F },
                // Latin-1 Supplement
                UnicodeBlock { start: 0x0080, end: 0x00FF },
                // Latin Extended-A
                UnicodeBlock { start: 0x0100, end: 0x017F },
                // Latin Extended-B
                UnicodeBlock { start: 0x0180, end: 0x024F },
            ],
        )),
        ("Emoji"@, Classifier::Union(
            seq![
                // Emoticons
                UnicodeBlock { start: 0x1F600, end: 0x1F64F },
                // Miscellaneous Symbols and Pictographs
                UnicodeBlock { start: 0x1F300, end: 0x1F5FF },
                // Supplemental Symbols and Pictographs
                UnicodeBlock { start: 0x1F900, end: 0x1F9FF },
                // Transport and Map Symbols
                UnicodeBlock { start: 0x1F680, end: 0x1F6FF },
            ],
        )),
        ("Arrows"@, Classifier::Union(
            seq![
                // Arrows
                UnicodeBlock { start: 0x2190, end: 0x21FF },
                // Supplemental Arrows-A
                UnicodeBlock { start: 0x27F0, end: 0x27FF },
                // Supplemental Arrows-B
                UnicodeBlock { start: 0x2900, end: 0x297F },
                // Supplemental Arrows-C
                UnicodeBlock { start: 0x1F800, end: 0x1F8FF },
                // Miscellaneous Symbols and Arrows
                UnicodeBlock { start: 0x2B00, end: 0x2BFF },
            ],
        )),
        ("Math"@, Classifier::Union(
            seq![
                // Mathematical Operators
                UnicodeBlock { start: 0x2200, end: 0x22FF },
                // Supplemental Mathematical Operators
                UnicodeBlock { start: 0x2A00, end: 0x2AFF },
                // Mathematical Alphanumeric Symbols
                UnicodeBlock { start: 0x1D400, end: 0x1D7FF },
                // Miscellaneous Mathematical Symbols-A
                UnicodeBlock { start: 0x27C0, end: 0x27EF },
                // Miscellaneous Mathematical Symbols-B
                UnicodeBlock { start: 0x2980, end: 0x29FF },
            ],
        )),
        ("Technical"@, Classifier::Union(
            seq![
                // Miscellaneous Technical
                UnicodeBlock { start: 0x2300, end: 0x23FF },
                // Control Pictures
                UnicodeBlock { start: 0x2400, end: 0x243F },
                // Optical Character Recognition
                UnicodeBlock { start: 0x2440, end: 0x245F },
            ],
        )),
        ("Symbols"@, Classifier::Union(
            seq![
                // Miscellaneous Symbols
                UnicodeBlock { start: 0x2600, end: 0x26FF },
                // Miscellaneous Symbols and Pictographs
                UnicodeBlock { start: 0x1F300, end: 0x1F5FF },
            ],
        )),
        ("Music"@, Classifier::Union(
            seq![
                // Musical Symbols
                UnicodeBlock { start: 0x1D100, end: 0x1D1FF },
                // Byzantine Musical Symbols
                UnicodeBlock { start: 0x1D000, end: 0x1D0FF },
                // Ancient Greek Musical Notation
                UnicodeBlock { start: 0x1D200, end: 0x1D24F },
            ],
        )),
        ("Box Drawing"@, Classifier::Union(
            seq![
                // Box Drawing
                UnicodeBlock { start: 0x2500, end: 0x257F },
                // Block Elements
                UnicodeBlock { start: 0x2580, end: 0x259F },
                // Geometric Shapes
                UnicodeBlock { start: 0x25A0, end: 0x25FF },
            ],
        )),
        ("Greek and Coptic"@, Classifier::Block(UnicodeBlock { start: 0x0370, end: 0x03FF })),
        ("Cyrillic"@, Classifier::Block(UnicodeBlock { start: 0x0400, end: 0x04FF })),
        ("Hebrew"@, Classifier::Block(UnicodeBlock { start: 0x0590, end: 0x05FF })),
        ("Arabic"@, Classifier::Block(UnicodeBlock { start: 0x0600, end: 0x06FF })),
    ]
}

/// The categories that the browser starts with.
pub fn create_default_categories() -> (r: Vec<Category>)
    ensures
        r@.map_values(|category: Category| category@) == default_categories(),
{
    let mut categories: Vec<Category> = Vec::new();
    categories.push(Category::new("Uppercase Letters", UnicodeCategory::Property(PropertyType::UppercaseLetters)));
    categories.push(Category::new("Lowercase Letters", UnicodeCategory::Property(PropertyType::LowercaseLetters)));
    categories.push(Category::new("All Letters", UnicodeCategory::Property(PropertyType::AllLetters)));
    categories.push(Category::new("Math Symbols", UnicodeCategory::Property(PropertyType::MathSymbols)));
    categories.push(Category::new("Punctuation", UnicodeCategory::Property(PropertyType::Punctuation)));
    categories.push(Category::new("Decimal Numbers", UnicodeCategory::Property(PropertyType::DecimalNumbers)));
    categories.push(Category::new("All Numbers", UnicodeCategory::Property(PropertyType::AllNumbers)));
    categories.push(Category::new("All Symbols", UnicodeCategory::Property(PropertyType::AllSymbols)));
    categories.push(
        Category::new(
            "Latin",
            UnicodeCategory::MultiBlock(UnicodeMultiBlock(
                vec![
                    // Basic Latin
                    UnicodeBlock { start: 0x0000, end: 0x007F },
                    // Latin-1 Supplement
                    UnicodeBlock { start: 0x0080, end: 0x00FF },
                    // Latin Extended-A
                    UnicodeBlock { start: 0x0100, end: 0x017F },
                    // Latin Extended-B
                    UnicodeBlock { start: 0x0180, end: 0x024F },
                ],
            )),
        ),
    );
    categories.push(
        Category::new(
            "Emoji",
            UnicodeCategory::MultiBlock(UnicodeMultiBlock(
                vec![
                    // Emoticons
                    UnicodeBlock { start: 0x1F600, end: 0x1F64F },
                    // Miscellaneous Symbols and Pictographs
                    UnicodeBlock { start: 0x1F300, end: 0x1F5FF },
                    // Supplemental Symbols and Pictographs
                    UnicodeBlock { start: 0x1F900, end: 0x1F9FF },
                    // Transport and Map Symbols
                    UnicodeBlock { start: 0x1F680, end: 0x1F6FF },
                ],
            )),
        ),
    );
    categories.push(
        Category::new(
            "Arrows",
            UnicodeCategory::MultiBlock(UnicodeMultiBlock(
                vec![
                    // Arrows
                    UnicodeBlock { start: 0x2190, end: 0x21FF },
                    // Supplemental Arrows-A
                    UnicodeBlock { start: 0x27F0, end: 0x27FF },
                    // Supplemental Arrows-B
                    UnicodeBlock { start: 0x2900, end: 0x297F },
                    // Supplemental Arrows-C
                    UnicodeBlock { start: 0x1F800, end: 0x1F8FF },
                    // Miscellaneous Symbols and Arrows
                    UnicodeBlock { start: 0x2B00, end: 0x2BFF },
                ],
            )),
        ),
    );
    categories.push(
        Category::new(
            "Math",
            UnicodeCategory::MultiBlock(UnicodeMultiBlock(
                vec![
                    // Mathematical Operators
                    UnicodeBlock { start: 0x2200, end: 0x22FF },
                    // Supplemental Mathematical Operators
                    UnicodeBlock { start: 0x2A00, end: 0x2AFF },
                    // Mathematical Alphanumeric Symbols
                    UnicodeBlock { start: 0x1D400, end: 0x1D7FF },
                    // Miscellaneous Mathematical Symbols-A
                    UnicodeBlock { start: 0x27C0, end: 0x27EF },
                    // Miscellaneous Mathematical Symbols-B
                    UnicodeBlock { start: 0x2980, end: 0x29FF },
                ],
            )),
        ),
    );
    categories.push(
        Category::new(
            "Technical",
            UnicodeCategory::MultiBlock(UnicodeMultiBlock(
                vec![
                    // Miscellaneous Technical
                    UnicodeBlock { start: 0x2300, end: 0x23FF },
                    // Control Pictures
                    UnicodeBlock { start: 0x2400, end: 0x243F },
                    // Optical Character Recognition
                    UnicodeBlock { start: 0x2440, end: 0x245F },
                ],
            )),
        ),
    );
    categories.push(
        Category::new(
            "Symbols",
            UnicodeCategory::MultiBlock(UnicodeMultiBlock(
                vec![
                    // Miscellaneous Symbols
                    UnicodeBlock { start: 0x2600, end: 0x26FF },
                    // Miscellaneous Symbols and Pictographs
                    UnicodeBlock { start: 0x1F300, end: 0x1F5FF },
                ],
            )),
        ),
    );
    categories.push(
        Category::new(
            "Music",
            UnicodeCategory::MultiBlock(UnicodeMultiBlock(
                vec![
                    // Musical Symbols
                    UnicodeBlock { start: 0x1D100, end: 0x1D1FF },
                    // Byzantine Musical Symbols
                    UnicodeBlock { start: 0x1D000, end: 0x1D0FF },
                    // Ancient Greek Musical Notation
                    UnicodeBlock { start: 0x1D200, end: 0x1D24F },
                ],
            )),
        ),
    );
    categories.push(
        Category::new(
            "Box Drawing",
            UnicodeCategory::MultiBlock(UnicodeMultiBlock(
                vec![
                    // Box Drawing
                    UnicodeBlock { start: 0x2500, end: 0x257F },
                    // Block Elements
                    UnicodeBlock { start: 0x2580, end: 0x259F },
                    // Geometric Shapes
                    UnicodeBlock { start: 0x25A0, end: 0x25FF },
                ],
            )),
        ),
    );
    categories.push(Category::new("Greek and Coptic", UnicodeCategory::Block(UnicodeBlock { start: 0x0370, end: 0x03FF })));
    categories.push(Category::new("Cyrillic", UnicodeCategory::Block(UnicodeBlock { start: 0x0400, end: 0x04FF })));
    categories.push(Category::new("Hebrew", UnicodeCategory::Block(UnicodeBlock { start: 0x0590, end: 0x05FF })));
    categories.push(Category::new("Arabic", UnicodeCategory::Block(UnicodeBlock { start: 0x0600, end: 0x06FF })));
    assert(categories@.map_values(|category: Category| category@) =~= default_categories());
    categories
}

/// The blocks of the category that is stored under the name `Emoji`.
pub open spec fn stored_emoji_blocks() -> Seq<UnicodeBlock> {
    seq![
        // Emoticons
        UnicodeBlock { start: 0x1F600, end: 0x1F64F },
        // Transport and Map Symbols
        UnicodeBlock { start: 0x1F680, end: 0x1F6FF },
        // Alchemical Symbols
        UnicodeBlock { start: 0x1F700, end: 0x1F77F },
        // Symbols and Pictographs Extended-A
        UnicodeBlock { start: 0x1FA70, end: 0x1FAFF },
        // Symbols for Legacy Computing
        UnicodeBlock { start: 0x1FB00, end: 0x1FBFF },
    ]
}

/// The brackets of the category that is stored under the name `Parentheses`.
pub open spec fn parentheses() -> Seq<char> {
    seq![
        '\u{0028}', '\u{0029}', '\u{005B}', '\u{005D}', '\u{007B}', '\u{007D}', '\u{0F3A}', '\u{0F3B}',
        '\u{0F3C}', '\u{0F3D}', '\u{169B}', '\u{169C}', '\u{2045}', '\u{2046}', '\u{207D}', '\u{207E}',
        '\u{208D}', '\u{208E}', '\u{2308}', '\u{2309}', '\u{230A}', '\u{230B}', '\u{2329}', '\u{232A}',
        '\u{2768}', '\u{2769}', '\u{276A}', '\u{276B}', '\u{276C}', '\u{276D}', '\u{276E}', '\u{276F}',
        '\u{2770}', '\u{2771}', '\u{2772}', '\u{2773}', '\u{2774}', '\u{2775}', '\u{27C5}', '\u{27C6}',
        '\u{27E6}', '\u{27E7}', '\u{27E8}', '\u{27E9}', '\u{27EA}', '\u{27EB}', '\u{27EC}', '\u{27ED}',
        '\u{27EE}', '\u{27EF}', '\u{2983}', '\u{2984}', '\u{2985}', '\u{2986}', '\u{2987}', '\u{2988}',
        '\u{2989}', '\u{298A}', '\u{298B}', '\u{298C}', '\u{298D}', '\u{298E}', '\u{298F}', '\u{2990}',
        '\u{2991}', '\u{2992}', '\u{2993}', '\u{2994}', '\u{2995}', '\u{2996}', '\u{2997}', '\u{2998}',
        '\u{29D8}', '\u{29D9}', '\u{29DA}', '\u{29DB}', '\u{29FC}', '\u{29FD}', '\u{2E22}', '\u{2E23}',
        '\u{2E24}', '\u{2E25}', '\u{2E26}', '\u{2E27}', '\u{2E28}', '\u{2E29}', '\u{2E55}', '\u{2E56}',
        '\u{2E57}', '\u{2E58}', '\u{2E59}', '\u{2E5A}', '\u{2E5B}', '\u{2E5C}', '\u{3008}', '\u{3009}',
        '\u{300A}', '\u{300B}', '\u{300C}', '\u{300D}', '\u{300E}', '\u{300F}', '\u{3010}', '\u{3011}',
        '\u{3014}', '\u{3015}', '\u{3016}', '\u{3017}', '\u{3018}', '\u{3019}', '\u{301A}', '\u{301B}',
        '\u{FE59}', '\u{FE5A}', '\u{FE5B}', '\u{FE5C}', '\u{FE5D}', '\u{FE5E}', '\u{FF08}', '\u{FF09}',
        '\u{FF3B}', '\u{FF3D}', '\u{FF5B}', '\u{FF5D}', '\u{FF5F}', '\u{FF60}', '\u{FF62}', '\u{FF63}',
    ]
}

/// The classifier of the first of the given categories with the given name, if any.
pub open spec fn classifier_named(categories: Seq<(Seq<char>, Classifier)>, name: Seq<char>) -> Option<
    Classifier,
>
    decreases categories.len(),
{
    if categories.len() == 0 {
        None
    } else if classifier_named(categories.drop_last(), name) is Some {
        classifier_named(categories.drop_last(), name)
    } else if categories.last().0 == name {
        Some(categories.last().1)
    } else {
        None
    }
}

/// The classifier that belongs to a stored category name. Two names have a
/// classifier of their own; any other name has the one of the default
/// category of that name, and the empty collection where there is none.
pub open spec fn classifier_for_name(name: Seq<char>) -> Classifier {
    if name == "Emoji"@ {
        Classifier::Union(stored_emoji_blocks())
    } else if name == "Parentheses"@ {
        Classifier::Collection(parentheses().to_set())
    } else if classifier_named(default_categories(), name) is Some {
        classifier_named(default_categories(), name)->0
    } else {
        Classifier::Collection(Set::empty())
    }
}

/// Whether two strings hold the same characters.
pub fn same_text(a: &str, b: &str) -> (r: bool)
    ensures
        r == (a@ == b@),
{
    let left = to_chars(a);
    let right = to_chars(b);
    if left.len() != right.len() {
        return false;
    }
    let mut i: usize = 0;
    while i < left.len()
        invariant
            i <= left.len(),
            left@ == a@,
            right@ == b@,
            left.len() == right.len(),
            forall|j: int| 0 <= j < i ==> left@[j] == right@[j],
        decreases left.len() - i,
    {
        if left[i] != right[i] {
            assert(a@[i as int] != b@[i as int]);
            return false;
        }
        i += 1;
    }
    assert(left@ =~= right@);
    true
}

/// The brackets of the category `Parentheses`, as a value.
fn parentheses_list() -> (r: Vec<char>)
    ensures
        r@ == parentheses(),
{
    let r = vec![
        '\u{0028}', '\u{0029}', '\u{005B}', '\u{005D}', '\u{007B}', '\u{007D}', '\u{0F3A}', '\u{0F3B}',
        '\u{0F3C}', '\u{0F3D}', '\u{169B}', '\u{169C}', '\u{2045}', '\u{2046}', '\u{207D}', '\u{207E}',
        '\u{208D}', '\u{208E}', '\u{2308}', '\u{2309}', '\u{230A}', '\u{230B}', '\u{2329}', '\u{232A}',
        '\u{2768}', '\u{2769}', '\u{276A}', '\u{276B}', '\u{276C}', '\u{276D}', '\u{276E}', '\u{276F}',
        '\u{2770}', '\u{2771}', '\u{2772}', '\u{2773}', '\u{2774}', '\u{2775}', '\u{27C5}', '\u{27C6}',
        '\u{27E6}', '\u{27E7}', '\u{27E8}', '\u{27E9}', '\u{27EA}', '\u{27EB}', '\u{27EC}', '\u{27ED}',
        '\u{27EE}', '\u{27EF}', '\u{2983}', '\u{2984}', '\u{2985}', '\u{2986}', '\u{2987}', '\u{2988}',
        '\u{2989}', '\u{298A}', '\u{298B}', '\u{298C}', '\u{298D}', '\u{298E}', '\u{298F}', '\u{2990}',
        '\u{2991}', '\u{2992}', '\u{2993}', '\u{2994}', '\u{2995}', '\u{2996}', '\u{2997}', '\u{2998}',
        '\u{29D8}', '\u{29D9}', '\u{29DA}', '\u{29DB}', '\u{29FC}', '\u{29FD}', '\u{2E22}', '\u{2E23}',
        '\u{2E24}', '\u{2E25}', '\u{2E26}', '\u{2E27}', '\u{2E28}', '\u{2E29}', '\u{2E55}', '\u{2E56}',
        '\u{2E57}', '\u{2E58}', '\u{2E59}', '\u{2E5A}', '\u{2E5B}', '\u{2E5C}', '\u{3008}', '\u{3009}',
        '\u{300A}', '\u{300B}', '\u{300C}', '\u{300D}', '\u{300E}', '\u{300F}', '\u{3010}', '\u{3011}',
        '\u{3014}', '\u{3015}', '\u{3016}', '\u{3017}', '\u{3018}', '\u{3019}', '\u{301A}', '\u{301B}',
        '\u{FE59}', '\u{FE5A}', '\u{FE5B}', '\u{FE5C}', '\u{FE5D}', '\u{FE5E}', '\u{FF08}', '\u{FF09}',
        '\u{FF3B}', '\u{FF3D}', '\u{FF5B}', '\u{FF5D}', '\u{FF5F}', '\u{FF60}', '\u{FF62}', '\u{FF63}',
    ];
    assert(r@ =~= parentheses());
    r
}

/// The classifier that belongs to a stored category name.
pub fn get_unicode_category_for_name(name: &str) -> (r: UnicodeCategory)
    ensures
        r@ == classifier_for_name(name@),
{
    if same_text(name, "Emoji") {
        return UnicodeCategory::MultiBlock(UnicodeMultiBlock(
                vec![
                    // Emoticons
                    UnicodeBlock { start: 0x1F600, end: 0x1F64F },
                    // Transport and Map Symbols
                    UnicodeBlock { start: 0x1F680, end: 0x1F6FF },
                    // Alchemical Symbols
                    UnicodeBlock { start: 0x1F700, end: 0x1F77F },
                    // Symbols and Pictographs Extended-A
                    UnicodeBlock { start: 0x1FA70, end: 0x1FAFF },
                    // Symbols for Legacy Computing
                    UnicodeBlock { start: 0x1FB00, end: 0x1FBFF },
                ],
            ));
    }
    if same_text(name, "Parentheses") {
        return UnicodeCategory::Collection(UnicodeCollection::from_chars(&parentheses_list()));
    }
    let mut defaults = create_default_categories();
    let ghost views = defaults@.map_values(|category: Category| category@);
    let mut i: usize = 0;
    while i < defaults.len()
        invariant
            i <= defaults.len(),
            name@ != "Emoji"@,
            name@ != "Parentheses"@,
            views == default_categories(),
            views == defaults@.map_values(|category: Category| category@),
            classifier_named(views.take(i as int), name@) is None,
        decreases defaults.len() - i,
    {
        proof {
            assert(views.take(i + 1).drop_last() =~= views.take(i as int));
            assert(views.take(i + 1).last() == defaults@[i as int]@);
        }
        if same_text(defaults[i].name.as_str(), name) {
            proof {
                lemma_classifier_named_extends(views, i + 1, name@);
            }
            let category = defaults.remove(i);
            return category.unicode_category;
        }
        i += 1;
    }
    proof {
        assert(views.take(i as int) =~= views);
    }
    UnicodeCategory::default()
}

/// A classifier found among the first `n` categories is the one found among all.
pub proof fn lemma_classifier_named_extends(
    categories: Seq<(Seq<char>, Classifier)>,
    n: int,
    name: Seq<char>,
)
    requires
        0 <= n <= categories.len(),
    ensures
        classifier_named(categories.take(n), name) is Some ==> classifier_named(categories, name)
            == classifier_named(categories.take(n), name),
    decreases categories.len() - n,
{
    if n == categories.len() {
        assert(categories.take(n) =~= categories);
    } else {
        let init = categories.drop_last();
        assert(init.take(n) =~= categories.take(n));
        lemma_classifier_named_extends(init, n, name);
    }
}

} // verus!
