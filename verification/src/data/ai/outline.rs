//! Which parts of a PDF document lead to which others, and whether following them
//! comes to an end.
//!
//! A page inherits from its parent, and a page draws forms, which draw forms in
//! turn. Nothing in the format keeps a part from being its own ancestor, or from
//! being drawn within itself.
use crate::text::same_bytes;
use vstd::prelude::*;

verus! {

/// The largest number of parts that a page inherits through.
pub const MAX_ANCESTORS: usize = 1_000;

/// How deep forms may be drawn within one another.
pub const MAX_FORM_DEPTH: usize = 100;

/// The largest number of forms that are drawn for one page.
pub const MAX_FORMS_DRAWN: usize = 100_000;

/// A part of a document that others refer to, by its number and generation.
pub struct PdfPart {
    pub id: (u32, u16),
    /// The part that it inherits from.
    pub parent: Option<(u32, u16)>,
    /// The forms that its resources name, and the part that each is. Nothing if it
    /// has no resources of its own.
    pub forms: Option<Vec<(Vec<u8>, Option<(u32, u16)>)>>,
    /// The names of the forms that it draws. Nothing if that is not known.
    pub draws: Option<Vec<Option<Vec<u8>>>>,
}

/// A page of a document.
pub struct PdfPage {
    pub id: (u32, u16),
    /// The names of the forms that it draws. Nothing if that is not known.
    pub draws: Option<Vec<Option<Vec<u8>>>>,
}

/// Where the part `id` stands among `parts`, from the place `i` on.
pub open spec fn part_from(parts: Seq<PdfPart>, id: (u32, u16), i: int) -> Option<int>
    decreases parts.len() - i,
{
    if i < 0 || i >= parts.len() {
        None
    } else if parts[i].id == id {
        Some(i)
    } else {
        part_from(parts, id, i + 1)
    }
}

/// Where the part `id` stands.
pub open spec fn part_index(parts: Seq<PdfPart>, id: (u32, u16)) -> Option<int> {
    part_from(parts, id, 0)
}

/// The part that is named `name`, from the place `i` on.
pub open spec fn form_from(
    forms: Seq<(Vec<u8>, Option<(u32, u16)>)>,
    name: Seq<u8>,
    i: int,
) -> Option<(u32, u16)>
    decreases forms.len() - i,
{
    if i < 0 || i >= forms.len() {
        None
    } else if forms[i].0@ == name {
        forms[i].1
    } else {
        form_from(forms, name, i + 1)
    }
}

/// Going from the part `id` from parent to parent comes to an end within `steps`
/// steps.
pub open spec fn ancestry_ends(parts: Seq<PdfPart>, id: (u32, u16), steps: nat) -> bool
    decreases steps,
{
    match part_index(parts, id) {
        None => false,
        Some(i) => match parts[i].parent {
            None => true,
            Some(parent) => steps > 0 && ancestry_ends(parts, parent, (steps - 1) as nat),
        },
    }
}

/// The first part, from `id` on and from parent to parent, that has resources.
pub open spec fn owner_index(parts: Seq<PdfPart>, id: (u32, u16), steps: nat) -> Option<int>
    decreases steps,
{
    match part_index(parts, id) {
        None => None,
        Some(i) => if parts[i].forms is Some {
            Some(i)
        } else {
            match parts[i].parent {
                None => None,
                Some(parent) => if steps > 0 {
                    owner_index(parts, parent, (steps - 1) as nat)
                } else {
                    None
                },
            }
        },
    }
}

/// The part that is drawn by a name, where `owner` has the resources.
pub open spec fn drawn_index(
    parts: Seq<PdfPart>,
    name: Option<Vec<u8>>,
    owner: Option<int>,
) -> Option<int> {
    match (name, owner) {
        (Some(name), Some(o)) => match parts[o].forms {
            Some(forms) => match form_from(forms@, name@, 0) {
                Some(id) => part_index(parts, id),
                None => None,
            },
            None => None,
        },
        _ => None,
    }
}

/// Whose resources the part at `i` is drawn with: its own, or else those that it is
/// drawn from.
pub open spec fn drawn_owner(parts: Seq<PdfPart>, i: int, owner: Option<int>) -> Option<int> {
    if parts[i].forms is Some {
        Some(i)
    } else {
        owner
    }
}

/// How many forms are drawn by the names in `draws`, from the place `next` on, the
/// forms within forms too. Nothing if a name leads nowhere, or if forms are drawn
/// within one another more than `depth` deep.
pub open spec fn forms_drawn(
    parts: Seq<PdfPart>,
    draws: Seq<Option<Vec<u8>>>,
    owner: Option<int>,
    next: int,
    depth: nat,
) -> Option<nat>
    decreases depth, draws.len() - next,
{
    if next < 0 || next >= draws.len() {
        Some(0)
    } else {
        match drawn_index(parts, draws[next], owner) {
            None => None,
            Some(i) => match parts[i].draws {
                None => None,
                Some(inner) => if depth == 0 {
                    None
                } else {
                    match (
                        forms_drawn(
                            parts,
                            inner@,
                            drawn_owner(parts, i, owner),
                            0,
                            (depth - 1) as nat,
                        ),
                        forms_drawn(parts, draws, owner, next + 1, depth),
                    ) {
                        (Some(within), Some(after)) => Some(1 + within + after),
                        _ => None,
                    }
                },
            },
        }
    }
}

/// Inheriting and drawing come to an end for a page, within the limits.
pub open spec fn page_ends(parts: Seq<PdfPart>, page: PdfPage) -> bool {
    &&& ancestry_ends(parts, page.id, MAX_ANCESTORS as nat)
    &&& page.draws matches Some(draws) && forms_drawn(
        parts,
        draws@,
        owner_index(parts, page.id, MAX_ANCESTORS as nat),
        0,
        MAX_FORM_DEPTH as nat,
    ) matches Some(n) && n <= MAX_FORMS_DRAWN
}

/// Inheriting and drawing come to an end for every page.
pub open spec fn pages_end(parts: Seq<PdfPart>, pages: Seq<PdfPage>) -> bool {
    forall|i: int| 0 <= i < pages.len() ==> page_ends(parts, #[trigger] pages[i])
}

/// Where the part `id` stands among `parts`.
pub fn find_part(parts: &Vec<PdfPart>, id: (u32, u16)) -> (r: Option<usize>)
    ensures
        match r {
            Some(i) => part_index(parts@, id) == Some(i as int),
            None => part_index(parts@, id) is None,
        },
        r matches Some(i) ==> i < parts@.len(),
{
    let mut i: usize = 0;
    while i < parts.len()
        invariant
            i <= parts@.len(),
            part_index(parts@, id) == part_from(parts@, id, i as int),
        decreases parts@.len() - i,
    {
        if parts[i].id.0 == id.0 && parts[i].id.1 == id.1 {
            assert(parts@[i as int].id == id);
            return Some(i);
        }
        i = i + 1;
    }
    None
}

/// The part that is named `name`.
pub fn find_form(forms: &Vec<(Vec<u8>, Option<(u32, u16)>)>, name: &Vec<u8>) -> (r: Option<
    (u32, u16),
>)
    ensures
        r == form_from(forms@, name@, 0),
{
    let mut i: usize = 0;
    while i < forms.len()
        invariant
            i <= forms@.len(),
            form_from(forms@, name@, 0) == form_from(forms@, name@, i as int),
        decreases forms@.len() - i,
    {
        if same_bytes(&forms[i].0, name) {
            return forms[i].1;
        }
        i = i + 1;
    }
    None
}

/// Going from the part `id` from parent to parent comes to an end within `steps`
/// steps.
fn check_ancestry(parts: &Vec<PdfPart>, id: (u32, u16), steps: usize) -> (r: bool)
    ensures
        r == ancestry_ends(parts@, id, steps as nat),
    decreases steps,
{
    match find_part(parts, id) {
        None => false,
        Some(i) => match parts[i].parent {
            None => true,
            Some(parent) => steps > 0 && check_ancestry(parts, parent, steps - 1),
        },
    }
}

/// The first part, from `id` on and from parent to parent, that has resources.
fn find_owner(parts: &Vec<PdfPart>, id: (u32, u16), steps: usize) -> (r: Option<usize>)
    ensures
        match r {
            Some(i) => owner_index(parts@, id, steps as nat) == Some(i as int) && i < parts@.len(),
            None => owner_index(parts@, id, steps as nat) is None,
        },
    decreases steps,
{
    match find_part(parts, id) {
        None => None,
        Some(i) => if parts[i].forms.is_some() {
            Some(i)
        } else {
            match parts[i].parent {
                None => None,
                Some(parent) => if steps > 0 {
                    find_owner(parts, parent, steps - 1)
                } else {
                    None
                },
            }
        },
    }
}

/// The place of a part as a number.
pub open spec fn place(i: Option<usize>) -> Option<int> {
    match i {
        Some(i) => Some(i as int),
        None => None,
    }
}

/// The part that is drawn by a name, where `owner` has the resources.
fn find_drawn(parts: &Vec<PdfPart>, name: &Option<Vec<u8>>, owner: Option<usize>) -> (r: Option<
    usize,
>)
    requires
        owner matches Some(o) ==> o < parts@.len(),
    ensures
        place(r) == drawn_index(parts@, *name, place(owner)),
        r matches Some(i) ==> i < parts@.len(),
{
    match (name, owner) {
        (Some(name), Some(o)) => match &parts[o].forms {
            Some(forms) => match find_form(forms, name) {
                Some(id) => find_part(parts, id),
                None => None,
            },
            None => None,
        },
        _ => None,
    }
}

/// What is left of `budget` forms once those that `draws` names are drawn, the
/// forms within forms too. Nothing if that does not come to an end within the
/// budget and the depth.
fn spend(
    parts: &Vec<PdfPart>,
    draws: &Vec<Option<Vec<u8>>>,
    owner: Option<usize>,
    depth: usize,
    budget: usize,
) -> (r: Option<usize>)
    requires
        owner matches Some(o) ==> o < parts@.len(),
    ensures
        match forms_drawn(parts@, draws@, place(owner), 0, depth as nat) {
            Some(n) if n <= budget => r == Some((budget - n) as usize),
            _ => r is None,
        },
    decreases depth,
{
    let mut left: usize = budget;
    let mut next: usize = 0;
    let ghost all = forms_drawn(parts@, draws@, place(owner), 0, depth as nat);
    while next < draws.len()
        invariant
            owner matches Some(o) ==> o < parts@.len(),
            next <= draws@.len(),
            left <= budget,
            all == forms_drawn(parts@, draws@, place(owner), 0, depth as nat),
            match forms_drawn(parts@, draws@, place(owner), next as int, depth as nat) {
                Some(n) => all == Some((n + budget - left) as nat),
                None => all is None,
            },
        decreases draws@.len() - next,
    {
        let at = match find_drawn(parts, &draws[next], owner) {
            Some(at) => at,
            None => {
                return None;
            },
        };
        let inner = match &parts[at].draws {
            Some(inner) => inner,
            None => {
                return None;
            },
        };
        if depth == 0 || left == 0 {
            return None;
        }
        let inner_owner = if parts[at].forms.is_some() {
            Some(at)
        } else {
            owner
        };
        left = match spend(parts, inner, inner_owner, depth - 1, left - 1) {
            Some(left) => left,
            None => {
                return None;
            },
        };
        next = next + 1;
    }
    Some(left)
}

/// Inheriting and drawing come to an end for a page, within the limits.
pub fn check_page(parts: &Vec<PdfPart>, page: &PdfPage) -> (r: bool)
    ensures
        r == page_ends(parts@, *page),
{
    if !check_ancestry(parts, page.id, MAX_ANCESTORS) {
        return false;
    }
    let owner = find_owner(parts, page.id, MAX_ANCESTORS);
    match &page.draws {
        Some(draws) => spend(parts, draws, owner, MAX_FORM_DEPTH, MAX_FORMS_DRAWN).is_some(),
        None => false,
    }
}

/// Inheriting and drawing come to an end for every page.
pub fn check_pages(parts: &Vec<PdfPart>, pages: &Vec<PdfPage>) -> (r: bool)
    ensures
        r == pages_end(parts@, pages@),
{
    let mut i: usize = 0;
    while i < pages.len()
        invariant
            i <= pages@.len(),
            forall|j: int| 0 <= j < i ==> page_ends(parts@, #[trigger] pages@[j]),
        decreases pages@.len() - i,
    {
        if !check_page(parts, &pages[i]) {
            assert(!page_ends(parts@, pages@[i as int]));
            return false;
        }
        i = i + 1;
    }
    true
}

/// A part that draws itself, under whatever name, draws no number of forms: it is
/// drawn within itself at every depth.
pub proof fn drawing_itself_never_ends(
    parts: Seq<PdfPart>,
    draws: Seq<Option<Vec<u8>>>,
    i: int,
    k: int,
    next: int,
    depth: nat,
)
    requires
        0 <= i < parts.len(),
        parts[i].forms is Some,
        parts[i].draws matches Some(own) && own@ == draws,
        0 <= next <= k < draws.len(),
        drawn_index(parts, draws[k], Some(i)) == Some(i),
    ensures
        forms_drawn(parts, draws, Some(i), next, depth) is None,
    decreases depth, k - next,
{
    if next < k {
        drawing_itself_never_ends(parts, draws, i, k, next + 1, depth);
    } else if depth > 0 {
        drawing_itself_never_ends(parts, draws, i, k, 0, (depth - 1) as nat);
    }
}

/// Going from a part that is its own parent from parent to parent comes to no end.
pub proof fn own_parents_never_end(parts: Seq<PdfPart>, i: int, steps: nat)
    requires
        0 <= i < parts.len(),
        part_index(parts, parts[i].id) == Some(i),
        parts[i].parent == Some(parts[i].id),
    ensures
        !ancestry_ends(parts, parts[i].id, steps),
    decreases steps,
{
    if steps > 0 {
        own_parents_never_end(parts, i, (steps - 1) as nat);
    }
}

/// A part is looked up by its number: the first one that has it is found.
pub proof fn parts_are_looked_up(parts: Seq<PdfPart>, id: (u32, u16), i: int)
    requires
        0 <= i <= parts.len(),
        forall|j: int| 0 <= j < i ==> (#[trigger] parts[j]).id != id,
        i < parts.len() ==> parts[i].id == id,
    ensures
        i < parts.len() ==> part_index(parts, id) == Some(i),
        i == parts.len() ==> part_index(parts, id) is None,
{
    part_from_is(parts, id, 0, i);
}

proof fn part_from_is(parts: Seq<PdfPart>, id: (u32, u16), from: int, i: int)
    requires
        0 <= from <= i <= parts.len(),
        forall|j: int| from <= j < i ==> (#[trigger] parts[j]).id != id,
        i < parts.len() ==> parts[i].id == id,
    ensures
        i < parts.len() ==> part_from(parts, id, from) == Some(i),
        i == parts.len() ==> part_from(parts, id, from) is None,
    decreases i - from,
{
    if from < i {
        assert(parts[from].id != id);
        part_from_is(parts, id, from + 1, i);
    }
}

/// A page of a document whose parents lead up to a root, and that draws no forms, can
/// be read to its end.
pub proof fn plain_pages_end(parts: Seq<PdfPart>, page: PdfPage, chain: Seq<int>)
    requires
        page.draws is Some,
        page.draws->0@.len() == 0,
        0 < chain.len() <= MAX_ANCESTORS,
        forall|k: int| #![trigger chain[k]] 0 <= k < chain.len() ==> 0 <= chain[k] < parts.len(),
        part_index(parts, page.id) == Some(chain[0]),
        forall|k: int|
            #![trigger chain[k]]
            0 <= k < chain.len() - 1 ==> parts[chain[k]].parent is Some && part_index(
                parts,
                parts[chain[k]].parent->0,
            ) == Some(chain[k + 1]),
        parts[chain[chain.len() - 1]].parent is None,
    ensures
        page_ends(parts, page),
{
    chains_end(parts, page.id, chain, MAX_ANCESTORS as nat);
}

proof fn chains_end(parts: Seq<PdfPart>, id: (u32, u16), chain: Seq<int>, steps: nat)
    requires
        0 < chain.len() <= steps + 1,
        part_index(parts, id) == Some(chain[0]),
        forall|k: int|
            #![trigger chain[k]]
            0 <= k < chain.len() - 1 ==> parts[chain[k]].parent is Some && part_index(
                parts,
                parts[chain[k]].parent->0,
            ) == Some(chain[k + 1]),
        parts[chain[chain.len() - 1]].parent is None,
    ensures
        ancestry_ends(parts, id, steps),
    decreases chain.len(),
{
    if chain.len() > 1 {
        let rest = chain.skip(1);
        assert(parts[chain[0]].parent is Some);
        assert(rest[0] == chain[1]);
        assert(rest[rest.len() - 1] == chain[chain.len() - 1]);
        assert forall|k: int| #![trigger rest[k]] 0 <= k < rest.len() - 1 implies parts[rest[k]].parent
            is Some && part_index(parts, parts[rest[k]].parent->0) == Some(rest[k + 1]) by {
            assert(rest[k] == chain[k + 1]);
            assert(rest[k + 1] == chain[k + 1 + 1]);
        }
        chains_end(parts, parts[chain[0]].parent->0, rest, (steps - 1) as nat);
    }
}

/// Forms that draw nothing themselves are counted one by one.
pub proof fn flat_forms_are_counted(
    parts: Seq<PdfPart>,
    draws: Seq<Option<Vec<u8>>>,
    owner: Option<int>,
    next: int,
    depth: nat,
)
    requires
        0 <= next <= draws.len(),
        depth > 0,
        forall|k: int|
            next <= k < draws.len() ==> (drawn_index(
                parts,
                #[trigger] draws[k],
                owner,
            ) matches Some(i) && parts[i].draws is Some && parts[i].draws->0@.len() == 0),
    ensures
        forms_drawn(parts, draws, owner, next, depth) == Some((draws.len() - next) as nat),
    decreases draws.len() - next,
{
    if next < draws.len() {
        assert(drawn_index(parts, draws[next], owner) is Some);
        let i = drawn_index(parts, draws[next], owner)->0;
        flat_forms_are_counted(parts, draws, owner, next + 1, depth);
        assert(forms_drawn(
            parts,
            parts[i].draws->0@,
            drawn_owner(parts, i, owner),
            0,
            (depth - 1) as nat,
        ) == Some(0nat));
    }
}

} // verus!
