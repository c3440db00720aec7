//! Identifiers of the objects of a workspace.
//!
//! An identifier is a text. Fresh identifiers are compact: twenty lowercase
//! letters and digits. Identifiers read from older files may be ULIDs.
use crate::idmap::Identifier;
use crate::text::{chars_of, string_of};
use vstd::prelude::*;

verus! {

/// Number of characters of a compact identifier.
pub const COMPACT_ID_LEN: usize = 20;

/// A lowercase ASCII letter or an ASCII digit.
pub open spec fn is_compact_char(c: char) -> bool {
    ('a' <= c && c <= 'z') || ('0' <= c && c <= '9')
}

/// Twenty lowercase ASCII letters and digits.
pub open spec fn is_compact_id(id: Seq<char>) -> bool {
    id.len() == COMPACT_ID_LEN && forall|i: int| 0 <= i < id.len() ==> is_compact_char(#[trigger] id[i])
}

/// Whether `c` is a lowercase ASCII letter or an ASCII digit.
pub fn compact_char(c: char) -> (r: bool)
    ensures
        r == is_compact_char(c),
{
    ('a' <= c && c <= 'z') || ('0' <= c && c <= '9')
}

/// Whether `id` is a compact identifier.
pub fn compact_id(id: &str) -> (r: bool)
    ensures
        r == is_compact_id(id@),
{
    let chars = chars_of(id);
    if chars.len() != COMPACT_ID_LEN {
        return false;
    }
    let mut i: usize = 0;
    while i < chars.len()
        invariant
            i <= chars@.len(),
            chars@ == id@,
            forall|j: int| 0 <= j < i ==> is_compact_char(#[trigger] chars@[j]),
        decreases chars@.len() - i,
    {
        if !compact_char(chars[i]) {
            assert(!is_compact_char(chars@[i as int]));
            return false;
        }
        i = i + 1;
    }
    true
}

/// The digit of value `d` in the alphabet `0`-`9`, `a`-`v`.
pub open spec fn base32_char(d: int) -> char {
    if d < 10 {
        (48 + d) as char
    } else {
        (87 + d) as char
    }
}

/// The last `len` base-32 digits of `n`, most significant first.
pub open spec fn base32_text(n: int, len: nat) -> Seq<char>
    decreases len,
{
    if len == 0 {
        Seq::empty()
    } else {
        base32_text(n / 32, (len - 1) as nat).push(base32_char(n % 32))
    }
}

/// Thirty-two to the power of `len`.
pub open spec fn base32_range(len: nat) -> int
    decreases len,
{
    if len == 0 {
        1
    } else {
        32 * base32_range((len - 1) as nat)
    }
}

/// Two numbers that fit in `len` base-32 digits have the same digits only if
/// they are the same number.
pub proof fn base32_text_injective(a: int, b: int, len: nat)
    requires
        0 <= a < base32_range(len),
        0 <= b < base32_range(len),
        base32_text(a, len) == base32_text(b, len),
    ensures
        a == b,
    decreases len,
{
    if len > 0 {
        let short = (len - 1) as nat;
        let x = base32_text(a / 32, short);
        let y = base32_text(b / 32, short);
        assert(x.push(base32_char(a % 32)).last() == y.push(base32_char(b % 32)).last());
        assert(x.push(base32_char(a % 32)).drop_last() =~= x);
        assert(y.push(base32_char(b % 32)).drop_last() =~= y);
        assert(a % 32 == b % 32) by {
            assert(base32_char(a % 32) as int == base32_char(b % 32) as int);
        }
        base32_text_injective(a / 32, b / 32, short);
    }
}

proof fn base32_text_compact(n: int, len: nat)
    ensures
        base32_text(n, len).len() == len,
        forall|i: int| 0 <= i < len ==> is_compact_char(#[trigger] base32_text(n, len)[i]),
    decreases len,
{
    if len > 0 {
        let short = (len - 1) as nat;
        base32_text_compact(n / 32, short);
        assert(is_compact_char(base32_char(n % 32)));
        assert forall|i: int| 0 <= i < len implies is_compact_char(
            #[trigger] base32_text(n, len)[i],
        ) by {
            if i < short {
                assert(base32_text(n, len)[i] == base32_text(n / 32, short)[i]);
            }
        }
    }
}

/// A character of the base-32 alphabet.
fn base32_digit(d: u128) -> (r: char)
    requires
        d < 32,
    ensures
        r == base32_char(d as int),
{
    if d < 10 {
        (48u8 + d as u8) as char
    } else {
        (87u8 + d as u8) as char
    }
}

/// The compact identifier that the low hundred bits of `bits` spell.
pub fn compact_id_of(bits: u128) -> (r: String)
    ensures
        r@ == base32_text(bits as int, COMPACT_ID_LEN as nat),
        is_compact_id(r@),
{
    let mut reversed: Vec<char> = Vec::new();
    let mut rest: u128 = bits;
    let mut left: usize = COMPACT_ID_LEN;
    while left > 0
        invariant
            left <= COMPACT_ID_LEN,
            reversed@.len() + left == COMPACT_ID_LEN,
            base32_text(bits as int, COMPACT_ID_LEN as nat) == base32_text(rest as int, left as nat)
                + reversed@.reverse(),
        decreases left,
    {
        let ghost short = (left - 1) as nat;
        let ghost upper = base32_text(rest as int / 32, short);
        let ghost lower = reversed@.reverse();
        reversed.push(base32_digit(rest % 32));
        proof {
            assert(reversed@.reverse() =~= seq![base32_char(rest as int % 32)] + lower);
            assert(upper.push(base32_char(rest as int % 32)) + lower =~= upper + (seq![
                base32_char(rest as int % 32),
            ] + lower));
        }
        rest = rest / 32;
        left = left - 1;
    }
    let mut chars: Vec<char> = Vec::new();
    let mut i: usize = reversed.len();
    while i > 0
        invariant
            i <= reversed@.len(),
            chars@.len() + i == reversed@.len(),
            forall|j: int| 0 <= j < chars@.len() ==> chars@[j] == reversed@.reverse()[j],
        decreases i,
    {
        i = i - 1;
        chars.push(reversed[i]);
    }
    proof {
        assert(chars@ =~= reversed@.reverse());
        assert(base32_text(rest as int, 0) + reversed@.reverse() =~= reversed@.reverse());
        base32_text_compact(bits as int, COMPACT_ID_LEN as nat);
    }
    string_of(&chars)
}

/// `ulid::Ulid::new`: 128 bits of which the high 48 are the time in
/// milliseconds and the others are random. Nothing is claimed of them.
#[verifier::external_body]
fn fresh_bits() -> (r: u128) {
    ulid::Ulid::new().0
}

/// A fresh compact identifier.
fn fresh_compact_id() -> (r: String)
    ensures
        is_compact_id(r@),
{
    compact_id_of(fresh_bits())
}

/// Identifies a snippet.
#[derive(Debug)]
pub struct EntityId {
    id: String,
}

impl EntityId {
    /// A fresh compact identifier. That it differs from every other one rests
    /// on chance and is not part of the contract.
    pub fn new() -> (r: Self)
        ensures
            is_compact_id(r@),
    {
        EntityId { id: fresh_compact_id() }
    }

    /// The identifier that `id` spells.
    pub fn from_string(id: &str) -> (r: Self)
        ensures
            r@ == id@,
    {
        EntityId { id: id.to_owned() }
    }

    /// The text of the identifier.
    pub fn as_str(&self) -> (r: &str)
        ensures
            r@ == self@,
    {
        self.id.as_str()
    }
}

impl View for EntityId {
    type V = Seq<char>;

    closed spec fn view(&self) -> Seq<char> {
        self.id@
    }
}

impl Clone for EntityId {
    fn clone(&self) -> (r: Self)
        ensures
            r == *self,
    {
        EntityId { id: self.id.clone() }
    }
}

impl PartialEq for EntityId {
    fn eq(&self, other: &Self) -> (r: bool) {
        self.id == other.id
    }
}

impl Eq for EntityId {

}

impl vstd::std_specs::cmp::PartialEqSpecImpl for EntityId {
    open spec fn obeys_eq_spec() -> bool {
        true
    }

    open spec fn eq_spec(&self, other: &Self) -> bool {
        self@ == other@
    }
}

impl Identifier for EntityId {
    open spec fn text(&self) -> Seq<char> {
        self@
    }

    fn as_text(&self) -> (s: &str) {
        self.as_str()
    }
}

/// Identifies a container.
#[derive(Debug)]
pub struct ContainerId {
    id: String,
}

impl ContainerId {
    /// A fresh compact identifier. That it differs from every other one rests
    /// on chance and is not part of the contract.
    pub fn new() -> (r: Self)
        ensures
            is_compact_id(r@),
    {
        ContainerId { id: fresh_compact_id() }
    }

    /// The identifier that `id` spells.
    pub fn from_string(id: &str) -> (r: Self)
        ensures
            r@ == id@,
    {
        ContainerId { id: id.to_owned() }
    }

    /// The text of the identifier.
    pub fn as_str(&self) -> (r: &str)
        ensures
            r@ == self@,
    {
        self.id.as_str()
    }
}

impl View for ContainerId {
    type V = Seq<char>;

    closed spec fn view(&self) -> Seq<char> {
        self.id@
    }
}

impl Clone for ContainerId {
    fn clone(&self) -> (r: Self)
        ensures
            r == *self,
    {
        ContainerId { id: self.id.clone() }
    }
}

impl PartialEq for ContainerId {
    fn eq(&self, other: &Self) -> (r: bool) {
        self.id == other.id
    }
}

impl Eq for ContainerId {

}

impl vstd::std_specs::cmp::PartialEqSpecImpl for ContainerId {
    open spec fn obeys_eq_spec() -> bool {
        true
    }

    open spec fn eq_spec(&self, other: &Self) -> bool {
        self@ == other@
    }
}

impl Identifier for ContainerId {
    open spec fn text(&self) -> Seq<char> {
        self@
    }

    fn as_text(&self) -> (s: &str) {
        self.as_str()
    }
}

/// Identifies a reference, that is, one card in a container.
#[derive(Debug)]
pub struct ReferenceId {
    id: String,
}

impl ReferenceId {
    /// A fresh compact identifier. That it differs from every other one rests
    /// on chance and is not part of the contract.
    pub fn new() -> (r: Self)
        ensures
            is_compact_id(r@),
    {
        ReferenceId { id: fresh_compact_id() }
    }

    /// The identifier that `id` spells.
    pub fn from_string(id: &str) -> (r: Self)
        ensures
            r@ == id@,
    {
        ReferenceId { id: id.to_owned() }
    }

    /// The text of the identifier.
    pub fn as_str(&self) -> (r: &str)
        ensures
            r@ == self@,
    {
        self.id.as_str()
    }
}

impl View for ReferenceId {
    type V = Seq<char>;

    closed spec fn view(&self) -> Seq<char> {
        self.id@
    }
}

impl Clone for ReferenceId {
    fn clone(&self) -> (r: Self)
        ensures
            r == *self,
    {
        ReferenceId { id: self.id.clone() }
    }
}

impl PartialEq for ReferenceId {
    fn eq(&self, other: &Self) -> (r: bool) {
        self.id == other.id
    }
}

impl Eq for ReferenceId {

}

impl vstd::std_specs::cmp::PartialEqSpecImpl for ReferenceId {
    open spec fn obeys_eq_spec() -> bool {
        true
    }

    open spec fn eq_spec(&self, other: &Self) -> bool {
        self@ == other@
    }
}

impl Identifier for ReferenceId {
    open spec fn text(&self) -> Seq<char> {
        self@
    }

    fn as_text(&self) -> (s: &str) {
        self.as_str()
    }
}

/// Identifies a conversation of an AI box.
#[derive(Debug)]
pub struct ConversationId {
    id: String,
}

impl ConversationId {
    /// A fresh compact identifier. That it differs from every other one rests
    /// on chance and is not part of the contract.
    pub fn new() -> (r: Self)
        ensures
            is_compact_id(r@),
    {
        ConversationId { id: fresh_compact_id() }
    }

    /// The identifier that `id` spells.
    pub fn from_string(id: &str) -> (r: Self)
        ensures
            r@ == id@,
    {
        ConversationId { id: id.to_owned() }
    }

    /// The text of the identifier.
    pub fn as_str(&self) -> (r: &str)
        ensures
            r@ == self@,
    {
        self.id.as_str()
    }
}

impl View for ConversationId {
    type V = Seq<char>;

    closed spec fn view(&self) -> Seq<char> {
        self.id@
    }
}

impl Clone for ConversationId {
    fn clone(&self) -> (r: Self)
        ensures
            r == *self,
    {
        ConversationId { id: self.id.clone() }
    }
}

impl PartialEq for ConversationId {
    fn eq(&self, other: &Self) -> (r: bool) {
        self.id == other.id
    }
}

impl Eq for ConversationId {

}

impl vstd::std_specs::cmp::PartialEqSpecImpl for ConversationId {
    open spec fn obeys_eq_spec() -> bool {
        true
    }

    open spec fn eq_spec(&self, other: &Self) -> bool {
        self@ == other@
    }
}

impl Identifier for ConversationId {
    open spec fn text(&self) -> Seq<char> {
        self@
    }

    fn as_text(&self) -> (s: &str) {
        self.as_str()
    }
}

/// Identifies one turn of a conversation.
#[derive(Debug)]
pub struct TurnTaskId {
    id: String,
}

impl TurnTaskId {
    /// A fresh compact identifier. That it differs from every other one rests
    /// on chance and is not part of the contract.
    pub fn new() -> (r: Self)
        ensures
            is_compact_id(r@),
    {
        TurnTaskId { id: fresh_compact_id() }
    }

    /// The identifier that `id` spells.
    pub fn from_string(id: &str) -> (r: Self)
        ensures
            r@ == id@,
    {
        TurnTaskId { id: id.to_owned() }
    }

    /// The text of the identifier.
    pub fn as_str(&self) -> (r: &str)
        ensures
            r@ == self@,
    {
        self.id.as_str()
    }
}

impl View for TurnTaskId {
    type V = Seq<char>;

    closed spec fn view(&self) -> Seq<char> {
        self.id@
    }
}

impl Clone for TurnTaskId {
    fn clone(&self) -> (r: Self)
        ensures
            r == *self,
    {
        TurnTaskId { id: self.id.clone() }
    }
}

impl PartialEq for TurnTaskId {
    fn eq(&self, other: &Self) -> (r: bool) {
        self.id == other.id
    }
}

impl Eq for TurnTaskId {

}

impl vstd::std_specs::cmp::PartialEqSpecImpl for TurnTaskId {
    open spec fn obeys_eq_spec() -> bool {
        true
    }

    open spec fn eq_spec(&self, other: &Self) -> bool {
        self@ == other@
    }
}

impl Identifier for TurnTaskId {
    open spec fn text(&self) -> Seq<char> {
        self@
    }

    fn as_text(&self) -> (s: &str) {
        self.as_str()
    }
}

/// Identifies a linked file outside the workspace.
#[derive(Debug)]
pub struct ExternalFileId {
    id: String,
}

impl ExternalFileId {
    /// A fresh compact identifier. That it differs from every other one rests
    /// on chance and is not part of the contract.
    pub fn new() -> (r: Self)
        ensures
            is_compact_id(r@),
    {
        ExternalFileId { id: fresh_compact_id() }
    }

    /// The identifier that `id` spells.
    pub fn from_string(id: &str) -> (r: Self)
        ensures
            r@ == id@,
    {
        ExternalFileId { id: id.to_owned() }
    }

    /// The text of the identifier.
    pub fn as_str(&self) -> (r: &str)
        ensures
            r@ == self@,
    {
        self.id.as_str()
    }
}

impl View for ExternalFileId {
    type V = Seq<char>;

    closed spec fn view(&self) -> Seq<char> {
        self.id@
    }
}

impl Clone for ExternalFileId {
    fn clone(&self) -> (r: Self)
        ensures
            r == *self,
    {
        ExternalFileId { id: self.id.clone() }
    }
}

impl PartialEq for ExternalFileId {
    fn eq(&self, other: &Self) -> (r: bool) {
        self.id == other.id
    }
}

impl Eq for ExternalFileId {

}

impl vstd::std_specs::cmp::PartialEqSpecImpl for ExternalFileId {
    open spec fn obeys_eq_spec() -> bool {
        true
    }

    open spec fn eq_spec(&self, other: &Self) -> bool {
        self@ == other@
    }
}

impl Identifier for ExternalFileId {
    open spec fn text(&self) -> Seq<char> {
        self@
    }

    fn as_text(&self) -> (s: &str) {
        self.as_str()
    }
}

/// Identifies a managed image.
#[derive(Debug)]
pub struct AttachmentId {
    id: String,
}

impl AttachmentId {
    /// A fresh compact identifier. That it differs from every other one rests
    /// on chance and is not part of the contract.
    pub fn new() -> (r: Self)
        ensures
            is_compact_id(r@),
    {
        AttachmentId { id: fresh_compact_id() }
    }

    /// The identifier that `id` spells.
    pub fn from_string(id: &str) -> (r: Self)
        ensures
            r@ == id@,
    {
        AttachmentId { id: id.to_owned() }
    }

    /// The text of the identifier.
    pub fn as_str(&self) -> (r: &str)
        ensures
            r@ == self@,
    {
        self.id.as_str()
    }
}

impl View for AttachmentId {
    type V = Seq<char>;

    closed spec fn view(&self) -> Seq<char> {
        self.id@
    }
}

impl Clone for AttachmentId {
    fn clone(&self) -> (r: Self)
        ensures
            r == *self,
    {
        AttachmentId { id: self.id.clone() }
    }
}

impl PartialEq for AttachmentId {
    fn eq(&self, other: &Self) -> (r: bool) {
        self.id == other.id
    }
}

impl Eq for AttachmentId {

}

impl vstd::std_specs::cmp::PartialEqSpecImpl for AttachmentId {
    open spec fn obeys_eq_spec() -> bool {
        true
    }

    open spec fn eq_spec(&self, other: &Self) -> bool {
        self@ == other@
    }
}

impl Identifier for AttachmentId {
    open spec fn text(&self) -> Seq<char> {
        self@
    }

    fn as_text(&self) -> (s: &str) {
        self.as_str()
    }
}

/// Identifies a text annotation on a canvas.
#[derive(Debug)]
pub struct TextId {
    id: String,
}

impl TextId {
    /// A fresh compact identifier. That it differs from every other one rests
    /// on chance and is not part of the contract.
    pub fn new() -> (r: Self)
        ensures
            is_compact_id(r@),
    {
        TextId { id: fresh_compact_id() }
    }

    /// The identifier that `id` spells.
    pub fn from_string(id: &str) -> (r: Self)
        ensures
            r@ == id@,
    {
        TextId { id: id.to_owned() }
    }

    /// The text of the identifier.
    pub fn as_str(&self) -> (r: &str)
        ensures
            r@ == self@,
    {
        self.id.as_str()
    }
}

impl View for TextId {
    type V = Seq<char>;

    closed spec fn view(&self) -> Seq<char> {
        self.id@
    }
}

impl Clone for TextId {
    fn clone(&self) -> (r: Self)
        ensures
            r == *self,
    {
        TextId { id: self.id.clone() }
    }
}

impl PartialEq for TextId {
    fn eq(&self, other: &Self) -> (r: bool) {
        self.id == other.id
    }
}

impl Eq for TextId {

}

impl vstd::std_specs::cmp::PartialEqSpecImpl for TextId {
    open spec fn obeys_eq_spec() -> bool {
        true
    }

    open spec fn eq_spec(&self, other: &Self) -> bool {
        self@ == other@
    }
}

impl Identifier for TextId {
    open spec fn text(&self) -> Seq<char> {
        self@
    }

    fn as_text(&self) -> (s: &str) {
        self.as_str()
    }
}

} // verus!
