//! Formulas in previews: what is shown of one while it is rendered, and after.
use crate::text::{hex, hex_text, join3, same_text};
use vstd::prelude::*;
use vstd::utf8::{encode_utf8, valid_utf8};

verus! {

/// What a formula is remembered by.
#[derive(Debug, Hash, PartialEq, Eq, PartialOrd, Ord)]
pub struct MathKey {
    pub source: String,
    pub inline: bool,
}

/// The font size that formulas are drawn in. MathJax draws a formula larger than
/// text of the same size.
pub const MATH_FONT_SIZE: u8 = 8;

/// Where a formula stands on its line.
#[derive(Clone, Copy, Debug)]
pub enum FormulaAlign {
    Left,
    Center,
}

/// What is known of a formula.
#[derive(Debug)]
pub enum CachedMath {
    /// It is being rendered.
    Pending,
    /// The rendered image.
    Svg(Vec<u8>),
    /// It cannot be rendered.
    Error(String),
}

impl Clone for MathKey {
    fn clone(&self) -> (r: Self)
        ensures
            r == *self,
    {
        MathKey { source: self.source.clone(), inline: self.inline }
    }
}

impl MathKey {
    /// The key of this formula.
    pub open spec fn is_of(&self, source: Seq<char>, inline: bool) -> bool {
        self.source@ == source && self.inline == inline
    }
}

/// The place of a formula among the entries, or their number.
pub open spec fn key_index(
    entries: Seq<(MathKey, CachedMath)>,
    source: Seq<char>,
    inline: bool,
) -> int
    decreases entries.len(),
{
    if entries.len() == 0 {
        0
    } else if entries[0].0.is_of(source, inline) {
        0
    } else {
        1 + key_index(entries.skip(1), source, inline)
    }
}

proof fn key_index_bounds(entries: Seq<(MathKey, CachedMath)>, source: Seq<char>, inline: bool)
    ensures
        0 <= key_index(entries, source, inline) <= entries.len(),
        key_index(entries, source, inline) < entries.len() ==> entries[key_index(
            entries,
            source,
            inline,
        )].0.is_of(source, inline),
        forall|j: int|
            0 <= j < key_index(entries, source, inline) ==> !(#[trigger] entries[j]).0.is_of(
                source,
                inline,
            ),
    decreases entries.len(),
{
    if entries.len() > 0 && !entries[0].0.is_of(source, inline) {
        key_index_bounds(entries.skip(1), source, inline);
        assert forall|j: int| 0 <= j < key_index(entries, source, inline) implies !(
        #[trigger] entries[j]).0.is_of(source, inline) by {
            if j > 0 {
                assert(entries.skip(1)[j - 1] == entries[j]);
            }
        }
    }
}

proof fn key_index_is(
    entries: Seq<(MathKey, CachedMath)>,
    source: Seq<char>,
    inline: bool,
    i: int,
)
    requires
        0 <= i <= entries.len(),
        i < entries.len() ==> entries[i].0.is_of(source, inline),
        forall|j: int| 0 <= j < i ==> !(#[trigger] entries[j]).0.is_of(source, inline),
    ensures
        key_index(entries, source, inline) == i,
    decreases entries.len(),
{
    if i > 0 {
        assert(!entries[0].0.is_of(source, inline));
        assert forall|j: int| 0 <= j < i - 1 implies !(#[trigger] entries.skip(1)[j]).0.is_of(
            source,
            inline,
        ) by {
            assert(entries.skip(1)[j] == entries[j + 1]);
        }
        key_index_is(entries.skip(1), source, inline, i - 1);
    }
}

/// What was learned of formulas in this session.
#[derive(Debug)]
pub struct MathCache {
    pub entries: Vec<(MathKey, CachedMath)>,
}

impl MathCache {
    /// Something is known of the formula.
    pub open spec fn knows(&self, source: Seq<char>, inline: bool) -> bool {
        key_index(self.entries@, source, inline) < self.entries@.len()
    }

    /// What is known of the formula.
    pub open spec fn known(&self, source: Seq<char>, inline: bool) -> CachedMath {
        self.entries@[key_index(self.entries@, source, inline)].1
    }

    /// The cache holds `value` for this formula, and what `before` holds for others.
    pub open spec fn learned(
        &self,
        before: Self,
        source: Seq<char>,
        inline: bool,
        value: CachedMath,
    ) -> bool {
        &&& self.knows(source, inline)
        &&& self.known(source, inline) == value
        &&& forall|s: Seq<char>, i: bool|
            s != source || i != inline ==> {
                &&& #[trigger] self.knows(s, i) == before.knows(s, i)
                &&& self.knows(s, i) ==> self.known(s, i) == before.known(s, i)
            }
    }

    /// Nothing is known.
    pub fn new() -> (r: Self)
        ensures
            forall|s: Seq<char>, i: bool| !#[trigger] r.knows(s, i),
    {
        MathCache { entries: Vec::new() }
    }

    fn find(&self, source: &str, inline: bool) -> (r: usize)
        ensures
            r == key_index(self.entries@, source@, inline),
            r <= self.entries@.len(),
    {
        let mut i: usize = 0;
        while i < self.entries.len()
            invariant
                i <= self.entries@.len(),
                forall|j: int|
                    0 <= j < i ==> !(#[trigger] self.entries@[j]).0.is_of(source@, inline),
            decreases self.entries@.len() - i,
        {
            let key = &self.entries[i].0;
            if key.inline == inline && same_text(&key.source, source) {
                proof {
                    key_index_is(self.entries@, source@, inline, i as int);
                }
                return i;
            }
            i = i + 1;
        }
        proof {
            key_index_is(self.entries@, source@, inline, i as int);
        }
        i
    }

    /// What is known of a formula.
    pub fn get(&self, source: &str, inline: bool) -> (r: Option<&CachedMath>)
        ensures
            match r {
                Some(value) => self.knows(source@, inline) && *value == self.known(source@, inline),
                None => !self.knows(source@, inline),
            },
    {
        let i = self.find(source, inline);
        if i < self.entries.len() {
            Some(&self.entries[i].1)
        } else {
            None
        }
    }

    /// Remembers what was learned of a formula.
    pub fn insert(&mut self, key: MathKey, value: CachedMath)
        ensures
            final(self).learned(*old(self), key.source@, key.inline, value),
    {
        let i = self.find(&key.source, key.inline);
        let ghost source = key.source@;
        let ghost inline = key.inline;
        let ghost before = self.entries@;
        if i < self.entries.len() {
            proof {
                key_index_bounds(before, source, inline);
            }
            self.entries.set(i, (key, value));
        } else {
            self.entries.push((key, value));
        }
        proof {
            let after = self.entries@;
            key_index_bounds(before, source, inline);
            assert forall|j: int| 0 <= j < i implies !(#[trigger] after[j]).0.is_of(
                source,
                inline,
            ) by {
                assert(after[j] == before[j]);
            }
            key_index_is(after, source, inline, i as int);
            assert forall|s: Seq<char>, l: bool| s != source || l != inline implies {
                &&& #[trigger] self.knows(s, l) == old(self).knows(s, l)
                &&& self.knows(s, l) ==> self.known(s, l) == old(self).known(s, l)
            } by {
                key_index_bounds(before, s, l);
                let k = key_index(before, s, l);
                assert forall|j: int| 0 <= j < k implies !(#[trigger] after[j]).0.is_of(s, l) by {
                    assert(!before[j].0.is_of(s, l));
                    if j != i {
                        assert(after[j] == before[j]);
                    }
                }
                if k < before.len() {
                    assert(k != i);
                    assert(after[k] == before[k]);
                    key_index_is(after, s, l, k);
                } else {
                    assert forall|j: int| 0 <= j < after.len() implies !(#[trigger] after[j]).0.is_of(
                        s,
                        l,
                    ) by {
                        if j != i {
                            assert(after[j] == before[j]);
                            assert(!before[j].0.is_of(s, l));
                        }
                    }
                    key_index_is(after, s, l, after.len() as int);
                }
            }
        }
    }

    /// Asks for a formula. If nothing is known of it, it is pending from now on,
    /// and the caller has to have it rendered.
    pub fn request(&mut self, key: &MathKey) -> (r: bool)
        ensures
            r == !old(self).knows(key.source@, key.inline),
            if r {
                final(self).learned(*old(self), key.source@, key.inline, CachedMath::Pending)
            } else {
                *final(self) == *old(self)
            },
    {
        if self.find(&key.source, key.inline) < self.entries.len() {
            return false;
        }
        self.insert(
            key.clone(),
            CachedMath::Pending,
        );
        true
    }

    /// Remembers that a formula could not be handed on.
    pub fn stopped(&mut self, key: MathKey, error: &str)
        ensures
            exists|value: CachedMath|
                {
                    &&& #[trigger] final(self).learned(*old(self), key.source@, key.inline, value)
                    &&& value matches CachedMath::Error(text)
                    &&& text@ == "MathJax worker stopped: "@ + error@
                },
    {
        let value = CachedMath::Error(crate::text::join2("MathJax worker stopped: ", error));
        let ghost kept = value;
        let ghost source = key.source@;
        let ghost inline = key.inline;
        self.insert(key, value);
        assert(self.learned(*old(self), source, inline, kept));
    }
}

/// A formula that was asked for is not handed on again: whatever is learned of
/// this formula or of others, it stays known.
pub proof fn formulas_are_rendered_once(
    first: MathCache,
    later: MathCache,
    source: Seq<char>,
    inline: bool,
    other: Seq<char>,
    other_inline: bool,
    value: CachedMath,
)
    requires
        first.knows(source, inline),
        later.learned(first, other, other_inline, value),
    ensures
        later.knows(source, inline),
{
}

/// The text of a formula, as it stands in a snippet.
pub open spec fn formula_text(source: Seq<char>, inline: bool) -> Seq<char> {
    if inline {
        "$"@ + source + "$"@
    } else {
        "$$"@ + source + "$$"@
    }
}

/// The text of a formula, as it stands in a snippet. It is shown while the formula
/// is rendered, and if it cannot be.
pub fn formula_source(source: &str, inline: bool) -> (r: String)
    ensures
        r@ == formula_text(source@, inline),
{
    if inline {
        join3("$", source, "$")
    } else {
        join3("$$", source, "$$")
    }
}

/// Where a formula stands on its line: one in a text follows the text, one of its
/// own is centered.
pub fn formula_align(inline: bool) -> (r: FormulaAlign)
    ensures
        r == (if inline {
            FormulaAlign::Left
        } else {
            FormulaAlign::Center
        }),
{
    if inline {
        FormulaAlign::Left
    } else {
        FormulaAlign::Center
    }
}

/// What is asked of the drawing of a formula.
#[derive(Debug)]
pub struct FormulaRequest {
    pub source: String,
    pub font_size: u8,
    pub align: FormulaAlign,
}

/// How a formula is to be drawn: its source as it is, in the font size of formulas,
/// at its place on the line.
pub fn formula_request(key: &MathKey) -> (r: FormulaRequest)
    ensures
        r.source@ == key.source@,
        r.font_size == MATH_FONT_SIZE,
        r.align == FormulaAlign::Left <==> key.inline,
{
    FormulaRequest {
        source: key.source.clone(),
        font_size: MATH_FONT_SIZE,
        align: formula_align(key.inline),
    }
}

/// Draws a formula, or says why it cannot be drawn: `mathjax_svg_rs::render_tex`.
/// The result is not stated: all calls share one script engine, which numbers the
/// parts of its pictures from one call to the next and keeps the macros that
/// formulas define.
#[verifier::external_body]
fn draw_tex(request: &FormulaRequest) -> (r: Result<String, String>) {
    let horizontal_align = match request.align {
        FormulaAlign::Left => mathjax_svg_rs::HorizontalAlign::Left,
        FormulaAlign::Center => mathjax_svg_rs::HorizontalAlign::Center,
    };
    let font_size = request.font_size.into();
    let options = mathjax_svg_rs::Options { font_size, horizontal_align };
    mathjax_svg_rs::render_tex(&request.source, &options)
}

/// What is kept of a formula that was drawn, or could not be.
pub fn drawn_formula(drawn: Result<String, String>) -> (r: CachedMath)
    ensures
        match drawn {
            Ok(svg) => r matches CachedMath::Svg(bytes) && bytes@ == encode_utf8(svg@),
            Err(message) => r == CachedMath::Error(message),
        },
{
    match drawn {
        Ok(svg) => CachedMath::Svg(svg.as_str().as_bytes_vec()),
        Err(message) => CachedMath::Error(message),
    }
}

/// Draws a formula as `formula_request` asks. Whatever comes of it, the formula is
/// done with, and a picture of it is text in UTF-8. Which picture it is depends on
/// the formulas before it; `drawn_formula` says what is kept of each outcome.
pub fn render_formula(key: &MathKey) -> (r: CachedMath)
    ensures
        !(r is Pending),
        r matches CachedMath::Svg(bytes) ==> valid_utf8(bytes@),
{
    broadcast use vstd::utf8::encode_utf8_valid_utf8;

    drawn_formula(draw_tex(&formula_request(key)))
}

/// The hash of a formula: `BuildHasher::hash_one` with the default hasher of std.
/// The value is not stated: std leaves the algorithm open.
#[verifier::external_body]
fn default_hash(key: &MathKey) -> (r: u64) {
    std::hash::BuildHasher::hash_one(
        &std::hash::BuildHasherDefault::<std::collections::hash_map::DefaultHasher>::default(),
        key,
    )
}

/// The hash of a formula, which names its image.
pub fn math_hash(key: &MathKey) -> (r: u64) {
    default_hash(key)
}

/// The address of the image of a formula with this hash.
pub fn math_uri(hash: u64) -> (r: String)
    ensures
        r@ == "mathjax://"@ + hex_text(hash as int, 16) + ".svg"@,
{
    join3("mathjax://", &hex(hash, 16), ".svg")
}

/// What is known of a formula is what was learned of it last.
pub proof fn formulas_are_known_as_learned(
    later: MathCache,
    first: MathCache,
    source: Seq<char>,
    inline: bool,
    value: CachedMath,
    other: Seq<char>,
    other_inline: bool,
)
    requires
        later.learned(first, source, inline, value),
    ensures
        later.known(source, inline) == value,
        (other != source || other_inline != inline) && first.knows(other, other_inline)
            ==> later.knows(other, other_inline) && later.known(other, other_inline)
            == first.known(other, other_inline),
        (other != source || other_inline != inline) && !first.knows(other, other_inline)
            ==> !later.knows(other, other_inline),
{
    if other != source || other_inline != inline {
        assert(later.knows(other, other_inline) == first.knows(other, other_inline));
    }
}

/// A formula is looked up by its text and its kind: the first entry of both counts.
pub proof fn formulas_are_looked_up(
    entries: Seq<(MathKey, CachedMath)>,
    source: Seq<char>,
    inline: bool,
    i: int,
)
    requires
        0 <= i <= entries.len(),
        forall|j: int|
            0 <= j < i ==> !((#[trigger] entries[j]).0.source@ == source && entries[j].0.inline
                == inline),
        i < entries.len() ==> entries[i].0.source@ == source && entries[i].0.inline == inline,
    ensures
        key_index(entries, source, inline) == i,
    decreases entries.len(),
{
    if i > 0 {
        let rest = entries.skip(1);
        assert(!(entries[0].0.source@ == source && entries[0].0.inline == inline));
        assert forall|j: int| 0 <= j < i - 1 implies !((#[trigger] rest[j]).0.source@ == source
            && rest[j].0.inline == inline) by {
            assert(rest[j] == entries[j + 1]);
        }
        formulas_are_looked_up(rest, source, inline, i - 1);
    }
}

} // verus!
