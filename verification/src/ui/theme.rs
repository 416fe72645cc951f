//! Colour themes and font sizes.
//!
//! A theme or a font size is stored in the browser's local storage under a
//! key of its own, by its class name, and shown by a class on the document's
//! root element. The root element's class list is modelled here as a list of
//! class names, with the semantics of a DOM token list: removing a class
//! removes every occurrence of it, adding one appends it unless it is there.

use vstd::prelude::*;

use crate::text::str_eq;
use crate::types::strings_view;

verus! {

/// Available colour themes.
#[derive(Clone, Copy, Debug, PartialEq, Eq, Structural)]
pub enum ThemeName {
    Swiss,
    CassetteFuturism,
}

/// UI font size scale.
#[derive(Clone, Copy, Debug, PartialEq, Eq, Structural)]
pub enum FontSize {
    Small,
    Normal,
    Large,
    XLarge,
}

/// The local-storage key of the theme.
pub const THEME_KEY: &'static str = "videre-theme";

/// The local-storage key of the font size.
pub const FONT_SIZE_KEY: &'static str = "videre-font-size";

/// The class name of a theme.
pub open spec fn theme_class(t: ThemeName) -> Seq<char> {
    match t {
        ThemeName::Swiss => "swiss"@,
        ThemeName::CassetteFuturism => "cassette-futurism"@,
    }
}

/// The theme a stored class name stands for; anything unknown is Swiss.
pub open spec fn theme_from_class(s: Seq<char>) -> ThemeName {
    if s == "cassette-futurism"@ {
        ThemeName::CassetteFuturism
    } else {
        ThemeName::Swiss
    }
}

/// The class name of a font size.
pub open spec fn font_class(f: FontSize) -> Seq<char> {
    match f {
        FontSize::Small => "fs-small"@,
        FontSize::Normal => "fs-normal"@,
        FontSize::Large => "fs-large"@,
        FontSize::XLarge => "fs-xl"@,
    }
}

/// The font size a stored class name stands for; anything unknown is
/// Normal.
pub open spec fn font_from_class(s: Seq<char>) -> FontSize {
    if s == "fs-small"@ {
        FontSize::Small
    } else if s == "fs-large"@ {
        FontSize::Large
    } else if s == "fs-xl"@ {
        FontSize::XLarge
    } else {
        FontSize::Normal
    }
}

impl ThemeName {
    /// Every theme, in the order the settings page lists them.
    pub const ALL: [ThemeName; 2] = [ThemeName::Swiss, ThemeName::CassetteFuturism];

    /// The theme's CSS class name, which is also what is stored.
    pub fn as_str(self) -> (r: &'static str)
        ensures
            r@ == theme_class(self),
    {
        match self {
            ThemeName::Swiss => "swiss",
            ThemeName::CassetteFuturism => "cassette-futurism",
        }
    }

    /// The theme a class name stands for; anything unknown is Swiss.
    pub fn from_str(s: &str) -> (r: ThemeName)
        ensures
            r == theme_from_class(s@),
    {
        if str_eq(s, "cassette-futurism") {
            ThemeName::CassetteFuturism
        } else {
            ThemeName::Swiss
        }
    }

    /// The name shown to people.
    pub fn display_name(self) -> (r: &'static str)
        ensures
            r@ == match self {
                ThemeName::Swiss => "Swiss"@,
                ThemeName::CassetteFuturism => "Cassette Futurism"@,
            },
    {
        match self {
            ThemeName::Swiss => "Swiss",
            ThemeName::CassetteFuturism => "Cassette Futurism",
        }
    }

    /// A short description for the settings page.
    pub fn description(self) -> (r: &'static str)
        ensures
            r@ == match self {
                ThemeName::Swiss => "Precision engineering"@,
                ThemeName::CassetteFuturism => "Phosphor, scanlines, ALL CAPS"@,
            },
            r@.len() > 0,
    {
        proof {
            reveal_strlit("Precision engineering");
            reveal_strlit("Phosphor, scanlines, ALL CAPS");
        }
        match self {
            ThemeName::Swiss => "Precision engineering",
            ThemeName::CassetteFuturism => "Phosphor, scanlines, ALL CAPS",
        }
    }
}

impl FontSize {
    /// Every font size, from smallest to largest.
    pub const ALL: [FontSize; 4] = [
        FontSize::Small,
        FontSize::Normal,
        FontSize::Large,
        FontSize::XLarge,
    ];

    /// The size's CSS class name, which is also what is stored.
    pub fn as_str(self) -> (r: &'static str)
        ensures
            r@ == font_class(self),
    {
        match self {
            FontSize::Small => "fs-small",
            FontSize::Normal => "fs-normal",
            FontSize::Large => "fs-large",
            FontSize::XLarge => "fs-xl",
        }
    }

    /// The size a class name stands for; anything unknown is Normal.
    pub fn from_str(s: &str) -> (r: FontSize)
        ensures
            r == font_from_class(s@),
    {
        if str_eq(s, "fs-small") {
            FontSize::Small
        } else if str_eq(s, "fs-large") {
            FontSize::Large
        } else if str_eq(s, "fs-xl") {
            FontSize::XLarge
        } else {
            FontSize::Normal
        }
    }

    /// The name shown to people.
    pub fn display_name(self) -> (r: &'static str)
        ensures
            r@ == match self {
                FontSize::Small => "Small"@,
                FontSize::Normal => "Normal"@,
                FontSize::Large => "Large"@,
                FontSize::XLarge => "X-Large"@,
            },
    {
        match self {
            FontSize::Small => "Small",
            FontSize::Normal => "Normal",
            FontSize::Large => "Large",
            FontSize::XLarge => "X-Large",
        }
    }

    /// A short description for the settings page.
    pub fn description(self) -> (r: &'static str)
        ensures
            r@ == match self {
                FontSize::Small => "Compact"@,
                FontSize::Normal => "Default"@,
                FontSize::Large => "Comfortable"@,
                FontSize::XLarge => "Accessible"@,
            },
    {
        match self {
            FontSize::Small => "Compact",
            FontSize::Normal => "Default",
            FontSize::Large => "Comfortable",
            FontSize::XLarge => "Accessible",
        }
    }
}

impl FontSize {
    /// The size of the "Aa" sample on the size's button in the settings
    /// page.
    pub fn preview_size(self) -> (r: &'static str)
        ensures
            r@ == match self {
                FontSize::Small => "0.75rem"@,
                FontSize::Normal => "0.8125rem"@,
                FontSize::Large => "0.9375rem"@,
                FontSize::XLarge => "1.0625rem"@,
            },
    {
        match self {
            FontSize::Small => "0.75rem",
            FontSize::Normal => "0.8125rem",
            FontSize::Large => "0.9375rem",
            FontSize::XLarge => "1.0625rem",
        }
    }
}

/// Reading a class name back gives the theme it was written for.
pub proof fn law_theme_round_trip(t: ThemeName)
    ensures
        theme_from_class(theme_class(t)) == t,
{
    reveal_strlit("swiss");
    reveal_strlit("cassette-futurism");
    assert("swiss"@.len() != "cassette-futurism"@.len());
}

/// Reading a class name back gives the font size it was written for.
pub proof fn law_font_round_trip(f: FontSize)
    ensures
        font_from_class(font_class(f)) == f,
{
    reveal_strlit("fs-small");
    reveal_strlit("fs-normal");
    reveal_strlit("fs-large");
    reveal_strlit("fs-xl");
    assert("fs-small"@[3] != "fs-large"@[3]);
    assert("fs-small"@.len() != "fs-xl"@.len());
    assert("fs-large"@.len() != "fs-xl"@.len());
    assert("fs-normal"@.len() != "fs-small"@.len());
    assert("fs-normal"@.len() != "fs-large"@.len());
    assert("fs-normal"@.len() != "fs-xl"@.len());
}

/// A value to write to local storage.
pub struct StorageItem {
    pub key: String,
    pub value: String,
}

/// The stored theme: the one its class name stands for, Swiss where nothing
/// is stored.
pub fn get_stored_theme(stored: Option<&str>) -> (r: ThemeName)
    ensures
        r == match stored {
            Some(v) => theme_from_class(v@),
            None => ThemeName::Swiss,
        },
{
    match stored {
        Some(v) => ThemeName::from_str(v),
        None => ThemeName::Swiss,
    }
}

/// What storing a theme writes: its class name under the theme key.
pub fn set_stored_theme(theme: ThemeName) -> (r: StorageItem)
    ensures
        r.key@ == THEME_KEY@,
        r.value@ == theme_class(theme),
{
    StorageItem { key: THEME_KEY.to_owned(), value: theme.as_str().to_owned() }
}

/// The stored font size: the one its class name stands for, Normal where
/// nothing is stored.
pub fn get_stored_font_size(stored: Option<&str>) -> (r: FontSize)
    ensures
        r == match stored {
            Some(v) => font_from_class(v@),
            None => FontSize::Normal,
        },
{
    match stored {
        Some(v) => FontSize::from_str(v),
        None => FontSize::Normal,
    }
}

/// What storing a font size writes: its class name under the font-size key.
pub fn set_stored_font_size(size: FontSize) -> (r: StorageItem)
    ensures
        r.key@ == FONT_SIZE_KEY@,
        r.value@ == font_class(size),
{
    StorageItem { key: FONT_SIZE_KEY.to_owned(), value: size.as_str().to_owned() }
}

/// A class list with every occurrence of `c` removed.
pub open spec fn without_class(l: Seq<Seq<char>>, c: Seq<char>) -> Seq<Seq<char>>
    decreases l.len(),
{
    if l.len() == 0 {
        l
    } else if l.last() == c {
        without_class(l.drop_last(), c)
    } else {
        without_class(l.drop_last(), c).push(l.last())
    }
}

/// A class list with `c` added at the end, unless it is there already.
pub open spec fn with_class(l: Seq<Seq<char>>, c: Seq<char>) -> Seq<Seq<char>> {
    if l.contains(c) {
        l
    } else {
        l.push(c)
    }
}

/// A class list without any theme class.
pub open spec fn without_themes(l: Seq<Seq<char>>) -> Seq<Seq<char>> {
    without_class(without_class(l, theme_class(ThemeName::Swiss)), theme_class(ThemeName::CassetteFuturism))
}

/// Applying a theme: every theme class is removed, then the theme's class
/// is added.
pub open spec fn apply_theme_spec(l: Seq<Seq<char>>, theme: ThemeName) -> Seq<Seq<char>> {
    with_class(without_themes(l), theme_class(theme))
}

/// A class list without the classes of the sizes other than Normal.
pub open spec fn without_font_sizes(l: Seq<Seq<char>>) -> Seq<Seq<char>> {
    without_class(
        without_class(without_class(l, font_class(FontSize::Small)), font_class(FontSize::Large)),
        font_class(FontSize::XLarge),
    )
}

/// Applying a font size: the classes of the other sizes are removed, then
/// the size's class is added, unless the size is Normal, which has none.
pub open spec fn apply_font_spec(l: Seq<Seq<char>>, size: FontSize) -> Seq<Seq<char>> {
    if size == FontSize::Normal {
        without_font_sizes(l)
    } else {
        with_class(without_font_sizes(l), font_class(size))
    }
}

/// Removes every occurrence of class `c`.
fn remove_class(classes: &mut Vec<String>, c: &str)
    ensures
        strings_view(*final(classes)) == without_class(strings_view(*old(classes)), c@),
{
    let ghost start = strings_view(*classes);
    let mut kept: Vec<String> = Vec::new();
    let mut i: usize = 0;
    while i < classes.len()
        invariant
            i <= classes@.len(),
            start == strings_view(*classes),
            strings_view(kept) == without_class(start.take(i as int), c@),
        decreases classes@.len() - i,
    {
        proof {
            assert(start.take(i + 1).drop_last() =~= start.take(i as int));
        }
        if !str_eq(classes[i].as_str(), c) {
            let ghost before = strings_view(kept);
            kept.push(classes[i].clone());
            assert(strings_view(kept) =~= before.push(start[i as int]));
        }
        i = i + 1;
    }
    assert(start.take(start.len() as int) =~= start);
    *classes = kept;
}

/// Adds class `c` at the end, unless it is there already.
fn add_class(classes: &mut Vec<String>, c: &str)
    ensures
        strings_view(*final(classes)) == with_class(strings_view(*old(classes)), c@),
{
    let ghost start = strings_view(*classes);
    let mut i: usize = 0;
    while i < classes.len()
        invariant
            i <= classes@.len(),
            start == strings_view(*classes),
            forall|k: int| 0 <= k < i ==> start[k] != c@,
        decreases classes@.len() - i,
    {
        if str_eq(classes[i].as_str(), c) {
            assert(start[i as int] == c@);
            return;
        }
        i = i + 1;
    }
    assert(!start.contains(c@));
    classes.push(c.to_owned());
    assert(strings_view(*classes) =~= start.push(c@));
}

/// Shows `theme`: removes every theme class from the root element's class
/// list and adds the theme's class.
pub fn apply_theme(classes: &mut Vec<String>, theme: ThemeName)
    ensures
        strings_view(*final(classes)) == apply_theme_spec(strings_view(*old(classes)), theme),
{
    remove_class(classes, ThemeName::Swiss.as_str());
    remove_class(classes, ThemeName::CassetteFuturism.as_str());
    add_class(classes, theme.as_str());
}

/// Shows `size`: removes the classes of the sizes other than Normal and
/// adds the size's class, unless the size is Normal.
pub fn apply_font_size(classes: &mut Vec<String>, size: FontSize)
    ensures
        strings_view(*final(classes)) == apply_font_spec(strings_view(*old(classes)), size),
{
    remove_class(classes, FontSize::Small.as_str());
    remove_class(classes, FontSize::Large.as_str());
    remove_class(classes, FontSize::XLarge.as_str());
    if size != FontSize::Normal {
        add_class(classes, size.as_str());
    }
}

/// At startup: shows the stored theme and the stored font size.
pub fn initialize_theme(
    classes: &mut Vec<String>,
    stored_theme: Option<&str>,
    stored_font_size: Option<&str>,
)
    ensures
        strings_view(*final(classes)) == apply_font_spec(
            apply_theme_spec(strings_view(*old(classes)), get_stored_theme_spec(stored_theme)),
            get_stored_font_spec(stored_font_size),
        ),
{
    apply_theme(classes, get_stored_theme(stored_theme));
    apply_font_size(classes, get_stored_font_size(stored_font_size));
}

/// The theme [`get_stored_theme`] gives.
pub open spec fn get_stored_theme_spec(stored: Option<&str>) -> ThemeName {
    match stored {
        Some(v) => theme_from_class(v@),
        None => ThemeName::Swiss,
    }
}

/// The font size [`get_stored_font_size`] gives.
pub open spec fn get_stored_font_spec(stored: Option<&str>) -> FontSize {
    match stored {
        Some(v) => font_from_class(v@),
        None => FontSize::Normal,
    }
}

/// Changes the theme: shows it, and returns what to store.
pub fn set_theme(classes: &mut Vec<String>, theme: ThemeName) -> (r: StorageItem)
    ensures
        r.key@ == THEME_KEY@,
        r.value@ == theme_class(theme),
        strings_view(*final(classes)) == apply_theme_spec(strings_view(*old(classes)), theme),
{
    let item = set_stored_theme(theme);
    apply_theme(classes, theme);
    item
}

/// Changes the font size: shows it, and returns what to store.
pub fn set_font_size(classes: &mut Vec<String>, size: FontSize) -> (r: StorageItem)
    ensures
        r.key@ == FONT_SIZE_KEY@,
        r.value@ == font_class(size),
        strings_view(*final(classes)) == apply_font_spec(strings_view(*old(classes)), size),
{
    let item = set_stored_font_size(size);
    apply_font_size(classes, size);
    item
}

/// Removing a class a list does not hold changes nothing.
proof fn lemma_without_absent(l: Seq<Seq<char>>, c: Seq<char>)
    requires
        !l.contains(c),
    ensures
        without_class(l, c) == l,
    decreases l.len(),
{
    if l.len() > 0 {
        assert(!l.drop_last().contains(c)) by {
            if l.drop_last().contains(c) {
                let k = choose|k: int| 0 <= k < l.drop_last().len() && l.drop_last()[k] == c;
                assert(l[k] == c);
            }
        }
        lemma_without_absent(l.drop_last(), c);
        assert(l[l.len() - 1] != c);
        assert(l.drop_last().push(l.last()) =~= l);
    }
}

/// Removing a class from a list with one more class at its end.
proof fn lemma_without_push(l: Seq<Seq<char>>, x: Seq<char>, c: Seq<char>)
    ensures
        without_class(l.push(x), c) == if x != c {
            without_class(l, c).push(x)
        } else {
            without_class(l, c)
        },
{
    assert(l.push(x).drop_last() =~= l);
}

/// The classes a list holds after a class is removed.
proof fn lemma_without_membership(l: Seq<Seq<char>>, c: Seq<char>, x: Seq<char>)
    ensures
        without_class(l, c).contains(x) <==> (l.contains(x) && x != c),
    decreases l.len(),
{
    if l.len() > 0 {
        let d = l.drop_last();
        lemma_without_membership(d, c, x);
        let w = without_class(l, c);
        let wd = without_class(d, c);
        if l.contains(x) && x != c {
            let k = choose|k: int| 0 <= k < l.len() && l[k] == x;
            if k < d.len() {
                assert(d[k] == x);
                let m = choose|m: int| 0 <= m < wd.len() && wd[m] == x;
                if l.last() != c {
                    assert(w[m] == x);
                }
            } else {
                assert(w[w.len() - 1] == x);
            }
        }
        if w.contains(x) {
            let k = choose|k: int| 0 <= k < w.len() && w[k] == x;
            if l.last() == c || k < wd.len() {
                assert(wd[k] == x);
                let m = choose|m: int| 0 <= m < d.len() && d[m] == x;
                assert(l[m] == x);
            } else {
                assert(l[l.len() - 1] == x);
            }
        }
    }
}

/// The classes a list holds once its theme classes are removed.
proof fn lemma_without_themes_membership(l: Seq<Seq<char>>, x: Seq<char>)
    ensures
        without_themes(l).contains(x) <==> (l.contains(x) && x != theme_class(ThemeName::Swiss) && x
            != theme_class(ThemeName::CassetteFuturism)),
{
    lemma_without_membership(l, theme_class(ThemeName::Swiss), x);
    lemma_without_membership(
        without_class(l, theme_class(ThemeName::Swiss)),
        theme_class(ThemeName::CassetteFuturism),
        x,
    );
}

/// Which classes a class list holds after a theme is applied: the theme's
/// own class, no other theme's class, and exactly the other classes it held
/// before.
pub proof fn law_apply_theme(l: Seq<Seq<char>>, theme: ThemeName)
    ensures
        apply_theme_spec(l, theme).contains(theme_class(theme)),
        forall|other: ThemeName|
            other != theme ==> !apply_theme_spec(l, theme).contains(#[trigger] theme_class(other)),
        forall|c: Seq<char>|
            c != theme_class(ThemeName::Swiss) && c != theme_class(ThemeName::CassetteFuturism)
                ==> (#[trigger] apply_theme_spec(l, theme).contains(c) <==> l.contains(c)),
{
    law_theme_round_trip(ThemeName::Swiss);
    law_theme_round_trip(ThemeName::CassetteFuturism);
    let b = without_themes(l);
    let r = apply_theme_spec(l, theme);
    assert forall|c: Seq<char>| #[trigger] r.contains(c) <==> (b.contains(c) || c == theme_class(theme)) by {
        if !b.contains(theme_class(theme)) {
            assert(r[r.len() - 1] == theme_class(theme));
            if r.contains(c) {
                let k = choose|k: int| 0 <= k < r.len() && r[k] == c;
                if k < b.len() {
                    assert(b[k] == c);
                }
            }
            if b.contains(c) {
                let k = choose|k: int| 0 <= k < b.len() && b[k] == c;
                assert(r[k] == c);
            }
        }
    }
    assert forall|c: Seq<char>| #[trigger] b.contains(c) <==> (l.contains(c) && c != theme_class(ThemeName::Swiss) && c != theme_class(ThemeName::CassetteFuturism)) by {
        lemma_without_themes_membership(l, c);
    }
}

/// Applying a theme removes every trace of the one applied before: the
/// last theme applied decides the class list.
pub proof fn law_last_theme_wins(l: Seq<Seq<char>>, first: ThemeName, second: ThemeName)
    ensures
        apply_theme_spec(apply_theme_spec(l, first), second) == apply_theme_spec(l, second),
{
    law_theme_round_trip(ThemeName::Swiss);
    law_theme_round_trip(ThemeName::CassetteFuturism);
    let s = theme_class(ThemeName::Swiss);
    let f = theme_class(ThemeName::CassetteFuturism);
    let b = without_themes(l);
    lemma_without_themes_membership(l, s);
    lemma_without_themes_membership(l, f);
    let c1 = theme_class(first);
    let once = apply_theme_spec(l, first);
    assert(once == b.push(c1));
    lemma_without_push(b, c1, s);
    lemma_without_absent(b, s);
    lemma_without_absent(b, f);
    if first == ThemeName::Swiss {
        assert(without_class(once, s) == b);
        assert(without_themes(once) == b);
    } else {
        assert(without_class(once, s) == b.push(c1));
        lemma_without_push(b, c1, f);
        assert(without_themes(once) == b);
    }
}

/// Whether a class is the class of a size other than Normal.
pub open spec fn is_size_class(c: Seq<char>) -> bool {
    c == font_class(FontSize::Small) || c == font_class(FontSize::Large) || c == font_class(
        FontSize::XLarge,
    )
}

/// The classes a list holds once its size classes are removed.
proof fn lemma_without_font_sizes_membership(l: Seq<Seq<char>>, x: Seq<char>)
    ensures
        without_font_sizes(l).contains(x) <==> (l.contains(x) && !is_size_class(x)),
{
    let a = without_class(l, font_class(FontSize::Small));
    let b = without_class(a, font_class(FontSize::Large));
    lemma_without_membership(l, font_class(FontSize::Small), x);
    lemma_without_membership(a, font_class(FontSize::Large), x);
    lemma_without_membership(b, font_class(FontSize::XLarge), x);
}

/// Which classes a class list holds after a font size is applied: the
/// size's own class unless the size is Normal, no other size's class, and
/// exactly the other classes it held before.
pub proof fn law_apply_font_size(l: Seq<Seq<char>>, size: FontSize)
    ensures
        size != FontSize::Normal ==> apply_font_spec(l, size).contains(font_class(size)),
        forall|other: FontSize|
            other != size && other != FontSize::Normal ==> !apply_font_spec(l, size).contains(
                #[trigger] font_class(other),
            ),
        forall|c: Seq<char>|
            !is_size_class(c) && c != font_class(size) ==> (#[trigger] apply_font_spec(
                l,
                size,
            ).contains(c) <==> l.contains(c)),
{
    law_font_round_trip(FontSize::Small);
    law_font_round_trip(FontSize::Normal);
    law_font_round_trip(FontSize::Large);
    law_font_round_trip(FontSize::XLarge);
    let b = without_font_sizes(l);
    let r = apply_font_spec(l, size);
    assert forall|c: Seq<char>| #[trigger] b.contains(c) <==> (l.contains(c) && !is_size_class(c)) by {
        lemma_without_font_sizes_membership(l, c);
    }
    if size != FontSize::Normal {
        assert forall|c: Seq<char>| #[trigger] r.contains(c) <==> (b.contains(c) || c == font_class(size)) by {
            if !b.contains(font_class(size)) {
                assert(r[r.len() - 1] == font_class(size));
                if r.contains(c) {
                    let k = choose|k: int| 0 <= k < r.len() && r[k] == c;
                    if k < b.len() {
                        assert(b[k] == c);
                    }
                }
                if b.contains(c) {
                    let k = choose|k: int| 0 <= k < b.len() && b[k] == c;
                    assert(r[k] == c);
                }
            }
        }
    }
}

/// Applying a font size removes every trace of the one applied before: the
/// last size applied decides the class list.
pub proof fn law_last_font_wins(l: Seq<Seq<char>>, first: FontSize, second: FontSize)
    ensures
        apply_font_spec(apply_font_spec(l, first), second) == apply_font_spec(l, second),
{
    law_font_round_trip(FontSize::Small);
    law_font_round_trip(FontSize::Normal);
    law_font_round_trip(FontSize::Large);
    law_font_round_trip(FontSize::XLarge);
    let sm = font_class(FontSize::Small);
    let lg = font_class(FontSize::Large);
    let xl = font_class(FontSize::XLarge);
    let b = without_font_sizes(l);
    lemma_without_font_sizes_membership(l, sm);
    lemma_without_font_sizes_membership(l, lg);
    lemma_without_font_sizes_membership(l, xl);
    lemma_without_absent(b, sm);
    lemma_without_absent(b, lg);
    lemma_without_absent(b, xl);
    assert(without_font_sizes(b) == b);
    if first != FontSize::Normal {
        let c1 = font_class(first);
        let once = apply_font_spec(l, first);
        assert(once == b.push(c1));
        lemma_without_push(b, c1, sm);
        lemma_without_push(without_class(b, sm), c1, lg);
        lemma_without_push(without_class(without_class(b, sm), lg), c1, xl);
        assert(without_font_sizes(once) == b);
    }
}

} // verus!
