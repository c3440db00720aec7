//! The text of PDF documents.
//!
//! Documents are read by `pdf-extract`, which follows every reference that it finds.
//! So a document is looked over first, and one in which that would not come to an
//! end has no text. Memory is taken as given throughout: what a document decodes to
//! is bounded nowhere.
use crate::data::ai::lengths::{check_lengths, close_lengths, has_plain_lengths};
use crate::data::ai::nesting::{check_nesting, nested_within};
use crate::data::ai::outline::{check_pages, find_form, find_part, form_from, pages_end, PdfPage,
    PdfPart};
use crate::text::same_text;
use pdf_extract::Document;
use std::sync::Arc;
use vstd::prelude::*;
use vstd::utf8::encode_utf8;

verus! {

/// The stack, in bytes, on which a document is read.
pub const PDF_STACK: usize = 134_217_728;

/// The largest number of brackets that are open in the tables of a font.
pub const MAX_BRACKETS: usize = 1_000;

/// The largest number of parts of a document that are looked over.
pub const MAX_PARTS: usize = 20_000;

/// A PDF document in memory.
#[verifier::external_type_specification]
#[verifier::external_body]
pub struct ExDocument(pdf_extract::Document);

/// The pages of a document, in order.
pub uninterp spec fn document_pages(document: Document) -> Seq<(u32, u16)>;

/// The dictionaries of a document: what stands in the one that is reached from a
/// part by a path of keys, each entry with the part that it refers to.
pub uninterp spec fn document_entries(document: Document) -> Map<
    ((u32, u16), Seq<Seq<u8>>),
    Seq<(Seq<u8>, Option<(u32, u16)>)>,
>;

/// The streams of a document, decoded.
pub uninterp spec fn document_streams(document: Document) -> Map<(u32, u16), Seq<u8>>;

/// What the pages of a document hold: their descriptions, decoded, and the text that
/// is found in all of them.
pub uninterp spec fn document_contents(document: Document) -> (
    Map<(u32, u16), Seq<u8>>,
    Seq<char>,
);

/// The operations in a description, each with its first operand if that is a name.
pub uninterp spec fn content_operations(bytes: Seq<u8>) -> Seq<(Seq<char>, Option<Seq<u8>>)>;

/// A path of keys.
pub open spec fn path_view(path: Seq<Vec<u8>>) -> Seq<Seq<u8>> {
    path.map_values(|key: Vec<u8>| key@)
}

/// The entries of a dictionary.
pub open spec fn entries_view(entries: Seq<(Vec<u8>, Option<(u32, u16)>)>) -> Seq<
    (Seq<u8>, Option<(u32, u16)>),
> {
    entries.map_values(|entry: (Vec<u8>, Option<(u32, u16)>)| (entry.0@, entry.1))
}

/// A name that may be missing.
pub open spec fn name_view(name: Option<Vec<u8>>) -> Option<Seq<u8>> {
    match name {
        Some(name) => Some(name@),
        None => None,
    }
}

/// Names that may be missing.
pub open spec fn names_view(names: Seq<Option<Vec<u8>>>) -> Seq<Option<Seq<u8>>> {
    names.map_values(|name: Option<Vec<u8>>| name_view(name))
}

/// The operations of a description.
pub open spec fn operations_view(operations: Seq<(String, Option<Vec<u8>>)>) -> Seq<
    (Seq<char>, Option<Seq<u8>>),
> {
    operations.map_values(|op: (String, Option<Vec<u8>>)| (op.0@, name_view(op.1)))
}

/// Reads a document: `Document::load_mem`. Which document comes of the bytes is not
/// stated: that of some encrypted files follows from the order of a hash map.
///
/// Where the length of a stream is a reference, the function goes after it while it
/// reads the stream, and from there to the next one; so there are no such lengths.
/// A panic stays on the thread that `tokio::runtime::Runtime::spawn_blocking` runs
/// the reading on; then nothing comes over the channel.
#[verifier::external_body]
fn load_document(bytes: &[u8], stack: usize) -> (r: Option<Document>)
    requires
        has_plain_lengths(bytes@),
        stack >= PDF_STACK,
{
    let file: Vec<u8> = bytes.to_vec();
    let (sender, receiver) = std::sync::mpsc::channel();
    let mut builder = tokio::runtime::Builder::new_current_thread();
    let runtime = builder.thread_stack_size(stack).build().ok()?;
    runtime.spawn_blocking(move || sender.send(Document::load_mem(&file).ok()));
    let document = receiver.recv();
    runtime.shutdown_background();
    document.ok()?
}

/// Whether a document says that it is encrypted: `Document::is_encrypted`. The
/// result is not stated: it decides no more than whether decrypting is tried.
#[verifier::external_body]
fn is_encrypted(document: &Document) -> (r: bool) {
    document.is_encrypted()
}

/// Decrypts a document that has no password: `Document::decrypt`. What it then holds
/// is not stated. A panic stays on its thread, as in `load_document`.
#[verifier::external_body]
fn decrypted(document: Document, stack: usize) -> (r: Option<Document>)
    requires
        stack >= PDF_STACK,
{
    let mut document = document;
    let (sender, receiver) = std::sync::mpsc::channel();
    let mut builder = tokio::runtime::Builder::new_current_thread();
    let runtime = builder.thread_stack_size(stack).build().ok()?;
    runtime.spawn_blocking(move || sender.send(document.decrypt("").ok().map(|_| document)));
    let document = receiver.recv();
    runtime.shutdown_background();
    document.ok()?
}

/// The pages of a document, in order: `Document::get_pages`.
#[verifier::external_body]
fn page_ids(document: &Arc<Document>) -> (r: Vec<(u32, u16)>)
    ensures
        r@ == document_pages(**document),
{
    document.get_pages().into_values().collect()
}

/// The entries of the dictionary that is reached from the part `id` by a path of
/// keys, where references are followed on the way: `Document::get_object` and
/// `Dictionary::get_deref`. The dictionary of a stream is that of its part. There
/// are no entries if something on the way is missing or is no dictionary.
#[verifier::external_body]
fn entries(document: &Arc<Document>, id: (u32, u16), path: &Vec<Vec<u8>>) -> (r: Option<
    Vec<(Vec<u8>, Option<(u32, u16)>)>,
>)
    ensures
        match r {
            Some(list) => document_entries(**document).contains_key((id, path_view(path@)))
                && document_entries(**document)[(id, path_view(path@))] == entries_view(list@),
            None => !document_entries(**document).contains_key((id, path_view(path@))),
        },
{
    let own = match document.get_object(id).ok()? {
        pdf_extract::Object::Stream(stream) => &stream.dict,
        object => object.as_dict().ok()?,
    };
    let found = path.iter().try_fold(own, |dictionary, key| {
        dictionary.get_deref(key, document).and_then(pdf_extract::Object::as_dict)
    });
    Some(found.ok()?.iter().map(|(key, value)| (key.clone(), value.as_reference().ok())).collect())
}

/// What the stream `id` holds, decoded as far as its filters are known:
/// `Stream::decompressed_content`, or else the bytes as they stand. The inner
/// `None` is for a part that is no stream, the outer one for no result at all: a
/// panic stays on its thread, as in `load_document`.
#[verifier::external_body]
fn stream_bytes(document: &Arc<Document>, id: (u32, u16), stack: usize) -> (r: Option<
    Option<Vec<u8>>,
>)
    requires
        stack >= PDF_STACK,
    ensures
        match r {
            Some(Some(bytes)) => document_streams(**document).contains_key(id)
                && document_streams(**document)[id] == bytes@,
            Some(None) => !document_streams(**document).contains_key(id),
            None => true,
        },
{
    let held = document.clone();
    let (sender, receiver) = std::sync::mpsc::channel();
    let mut builder = tokio::runtime::Builder::new_current_thread();
    let runtime = builder.thread_stack_size(stack).build().ok()?;
    runtime.spawn_blocking(move || {
        let stream = held.get_object(id).and_then(pdf_extract::Object::as_stream).ok();
        let plain = |s: &pdf_extract::Stream| s.decompressed_content().unwrap_or(s.content.clone());
        sender.send(stream.map(plain))
    });
    let bytes = receiver.recv();
    runtime.shutdown_background();
    bytes.ok()
}

/// The description of the page `id`, decoded: `Document::get_page_content`. A panic
/// stays on its thread, as in `load_document`.
#[verifier::external_body]
fn page_bytes(document: &Arc<Document>, id: (u32, u16), stack: usize) -> (r: Option<Vec<u8>>)
    requires
        stack >= PDF_STACK,
    ensures
        r matches Some(bytes) ==> document_contents(**document).0.contains_key(id)
            && document_contents(**document).0[id] == bytes@,
{
    let held = document.clone();
    let (sender, receiver) = std::sync::mpsc::channel();
    let mut builder = tokio::runtime::Builder::new_current_thread();
    let runtime = builder.thread_stack_size(stack).build().ok()?;
    runtime.spawn_blocking(move || sender.send(held.get_page_content(id).ok()));
    let bytes = receiver.recv();
    runtime.shutdown_background();
    bytes.ok()?
}

/// The operations in a description, each with its first operand if that is a name:
/// `Content::decode`. A panic stays on its thread, as in `load_document`.
#[verifier::external_body]
fn operations(bytes: Vec<u8>, stack: usize) -> (r: Option<Vec<(String, Option<Vec<u8>>)>>)
    requires
        stack >= PDF_STACK,
    ensures
        r matches Some(list) ==> operations_view(list@) == content_operations(bytes@),
{
    let (sender, receiver) = std::sync::mpsc::channel();
    let mut builder = tokio::runtime::Builder::new_current_thread();
    let runtime = builder.thread_stack_size(stack).build().ok()?;
    runtime.spawn_blocking(move || sender.send(pdf_extract::content::Content::decode(&bytes).ok()));
    let content = receiver.recv();
    runtime.shutdown_background();
    let first = |operands: &Vec<pdf_extract::Object>| Some(operands.first()?.as_name().ok()?.to_vec());
    let list = content.ok()??.operations;
    Some(list.into_iter().map(|op| (op.operator, first(&op.operands))).collect())
}

/// The part that an entry refers to, from the place `i` on.
pub open spec fn linked(
    entries: Seq<(Seq<u8>, Option<(u32, u16)>)>,
    key: Seq<u8>,
    i: int,
) -> Option<(u32, u16)>
    decreases entries.len() - i,
{
    if i < 0 || i >= entries.len() {
        None
    } else if entries[i].0 == key {
        entries[i].1
    } else {
        linked(entries, key, i + 1)
    }
}

/// The part that an entry of a dictionary refers to.
pub open spec fn link_of(
    document: Document,
    id: (u32, u16),
    path: Seq<Seq<u8>>,
    key: Seq<char>,
) -> Option<(u32, u16)> {
    if document_entries(document).contains_key((id, path)) {
        linked(document_entries(document)[(id, path)], encode_utf8(key), 0)
    } else {
        None
    }
}

/// The path of keys to the resources of a part.
pub open spec fn resources_path() -> Seq<Seq<u8>> {
    seq![encode_utf8("Resources"@)]
}

/// The path of keys to what the resources of a part hold under a key.
pub open spec fn resource_path(key: Seq<char>) -> Seq<Seq<u8>> {
    resources_path().push(encode_utf8(key))
}

/// The names in the operations that draw a form.
pub open spec fn drawn_names(operations: Seq<(Seq<char>, Option<Seq<u8>>)>) -> Seq<
    Option<Seq<u8>>,
>
    decreases operations.len(),
{
    if operations.len() == 0 {
        Seq::empty()
    } else if operations.last().0 == "Do"@ {
        drawn_names(operations.drop_last()).push(operations.last().1)
    } else {
        drawn_names(operations.drop_last())
    }
}

/// A part is as it stands in the document.
pub open spec fn is_part(document: Document, part: PdfPart) -> bool {
    &&& part.parent == link_of(document, part.id, Seq::empty(), "Parent"@)
    &&& match part.forms {
        Some(forms) => document_entries(document).contains_key((part.id, resources_path()))
            && entries_view(forms@) == if document_entries(document).contains_key(
            (part.id, resource_path("XObject"@)),
        ) {
            document_entries(document)[(part.id, resource_path("XObject"@))]
        } else {
            Seq::empty()
        },
        None => !document_entries(document).contains_key((part.id, resources_path())),
    }
    &&& part.draws matches Some(draws) ==> document_streams(document).contains_key(part.id)
        && names_view(draws@) == drawn_names(
        content_operations(document_streams(document)[part.id]),
    )
}

/// A page is as it stands in the document.
pub open spec fn is_page(document: Document, page: PdfPage) -> bool {
    page.draws matches Some(draws) ==> document_contents(document).0.contains_key(page.id)
        && names_view(draws@) == drawn_names(
        content_operations(document_contents(document).0[page.id]),
    )
}

/// What stands at the end of a reference is not nested too deep, if it is a stream.
pub open spec fn is_shallow(document: Document, link: Option<(u32, u16)>) -> bool {
    match link {
        Some(id) => document_streams(document).contains_key(id) ==> nested_within(
            document_streams(document)[id],
            MAX_BRACKETS as nat,
        ),
        None => true,
    }
}

/// The tables of a font of the part `id` are not nested too deep.
pub open spec fn is_shallow_font(document: Document, id: (u32, u16), font: Seq<u8>) -> bool {
    let path = resource_path("Font"@).push(font);
    &&& is_shallow(document, link_of(document, id, path, "ToUnicode"@))
    &&& is_shallow(document, link_of(document, id, path, "Encoding"@))
    &&& is_shallow(
        document,
        link_of(document, id, path.push(encode_utf8("FontDescriptor"@)), "FontFile"@),
    )
}

/// The tables of the fonts of the part `id` are not nested too deep.
pub open spec fn has_shallow_fonts(document: Document, id: (u32, u16)) -> bool {
    let fonts = document_entries(document)[(id, resource_path("Font"@))];
    document_entries(document).contains_key((id, resource_path("Font"@))) ==> (forall|i: int|
        0 <= i < fonts.len() ==> is_shallow_font(document, id, (#[trigger] fonts[i]).0))
}

/// The pages and parts are those of the document, as far as reading it leads to
/// them, and reading it comes to an end.
pub open spec fn reading_ends(
    document: Document,
    pages: Seq<PdfPage>,
    parts: Seq<PdfPart>,
) -> bool {
    &&& pages.map_values(|page: PdfPage| page.id) == document_pages(document)
    &&& forall|i: int| 0 <= i < pages.len() ==> is_page(document, #[trigger] pages[i])
    &&& forall|i: int|
        0 <= i < parts.len() ==> is_part(document, #[trigger] parts[i]) && has_shallow_fonts(
            document,
            parts[i].id,
        )
    &&& pages_end(parts, pages)
}

/// The text of a document: `pdf_extract::output_doc` with `PlainTextOutput`, or
/// nothing if it reports an error. The text follows from the document alone, from its
/// page descriptions, fonts and positions. When there is none is not stated.
///
/// For each page the function calls itself from parent to parent for what the page
/// inherits, and for each form that the page draws, and each that a form draws. It
/// takes the forms and fonts of a form from the resources of the form, or else from
/// those of what it is drawn from. In the tables of a font it calls itself for each
/// bracket that is open. The pages and parts are the ones that it comes to this way,
/// and by them the calls come to an end within the limits.
/// On many damaged documents the function panics: that stays on its thread, as in
/// `load_document`.
#[verifier::external_body]
fn document_text(
    document: &Arc<Document>,
    pages: &Vec<PdfPage>,
    parts: &Vec<PdfPart>,
    stack: usize,
) -> (r: Option<String>)
    requires
        reading_ends(**document, pages@, parts@),
        stack >= PDF_STACK,
    ensures
        r matches Some(text) ==> text@ == document_contents(**document).1,
{
    let held = document.clone();
    let (sender, receiver) = std::sync::mpsc::channel();
    let mut builder = tokio::runtime::Builder::new_current_thread();
    let runtime = builder.thread_stack_size(stack).build().ok()?;
    runtime.spawn_blocking(move || {
        let mut text = String::new();
        let mut output = pdf_extract::PlainTextOutput::new(&mut text);
        let done = pdf_extract::output_doc(&held, &mut output).ok();
        sender.send(done.map(|_| text))
    });
    let text = receiver.recv();
    runtime.shutdown_background();
    text.ok()?
}

/// A key of a dictionary.
fn key(name: &str) -> (r: Vec<u8>)
    ensures
        r@ == encode_utf8(name@),
{
    name.as_bytes_vec()
}

proof fn lemma_linked(entries: Seq<(Vec<u8>, Option<(u32, u16)>)>, key: Seq<u8>, i: int)
    requires
        0 <= i <= entries.len(),
    ensures
        form_from(entries, key, i) == linked(entries_view(entries), key, i),
    decreases entries.len() - i,
{
    if i < entries.len() {
        lemma_linked(entries, key, i + 1);
    }
}

/// The part that an entry of a dictionary refers to.
fn link(document: &Arc<Document>, id: (u32, u16), path: &Vec<Vec<u8>>, name: &str) -> (r: Option<
    (u32, u16),
>)
    ensures
        r == link_of(**document, id, path_view(path@), name@),
{
    match entries(document, id, path) {
        Some(list) => {
            let wanted = key(name);
            proof {
                lemma_linked(list@, wanted@, 0);
            }
            find_form(&list, &wanted)
        },
        None => None,
    }
}

/// Whether what stands at the end of a reference is not nested too deep, if it is a
/// stream. It is taken to be if it cannot be read.
fn check_shallow(document: &Arc<Document>, link: Option<(u32, u16)>) -> (r: bool)
    ensures
        r ==> is_shallow(**document, link),
{
    match link {
        None => true,
        Some(id) => match stream_bytes(document, id, PDF_STACK) {
            Some(Some(bytes)) => check_nesting(&bytes, MAX_BRACKETS),
            Some(None) => true,
            None => false,
        },
    }
}

/// Whether the tables of the fonts of the part `id` are not nested too deep.
fn check_fonts(document: &Arc<Document>, id: (u32, u16)) -> (r: bool)
    ensures
        r ==> has_shallow_fonts(**document, id),
{
    let path = vec![key("Resources"), key("Font")];
    assert(path_view(path@) =~= resource_path("Font"@));
    let fonts = match entries(document, id, &path) {
        Some(fonts) => fonts,
        None => {
            return true;
        },
    };
    let mut i: usize = 0;
    while i < fonts.len()
        invariant
            i <= fonts@.len(),
            forall|j: int|
                0 <= j < i ==> is_shallow_font(**document, id, (#[trigger] fonts@[j]).0@),
        decreases fonts@.len() - i,
    {
        let ghost font = fonts@[i as int].0@;
        let path = vec![key("Resources"), key("Font"), fonts[i].0.clone()];
        let inner = vec![
            key("Resources"),
            key("Font"),
            fonts[i].0.clone(),
            key("FontDescriptor"),
        ];
        assert(path_view(path@) =~= resource_path("Font"@).push(font));
        assert(path_view(inner@) =~= resource_path("Font"@).push(font).push(
            encode_utf8("FontDescriptor"@),
        ));
        if !check_shallow(document, link(document, id, &path, "ToUnicode")) || !check_shallow(
            document,
            link(document, id, &path, "Encoding"),
        ) || !check_shallow(document, link(document, id, &inner, "FontFile")) {
            return false;
        }
        i = i + 1;
    }
    true
}

/// The names in the operations that draw a form.
fn names_drawn(operations: &Vec<(String, Option<Vec<u8>>)>) -> (r: Vec<Option<Vec<u8>>>)
    ensures
        names_view(r@) == drawn_names(operations_view(operations@)),
{
    let mut names: Vec<Option<Vec<u8>>> = Vec::new();
    let mut i: usize = 0;
    let ghost all = operations_view(operations@);
    assert(names_view(names@) =~= drawn_names(all.take(0)));
    while i < operations.len()
        invariant
            i <= operations@.len(),
            all == operations_view(operations@),
            names_view(names@) == drawn_names(all.take(i as int)),
        decreases operations@.len() - i,
    {
        proof {
            assert(all.take(i + 1).drop_last() =~= all.take(i as int));
            assert(all.take(i + 1).last() == (
                operations@[i as int].0@,
                name_view(operations@[i as int].1),
            ));
        }
        if same_text(&operations[i].0, "Do") {
            let ghost before = names@;
            let name = match &operations[i].1 {
                Some(name) => Some(name.clone()),
                None => None,
            };
            names.push(name);
            assert(names_view(names@) =~= names_view(before).push(name_view(name)));
        }
        i = i + 1;
    }
    assert(all.take(all.len() as int) =~= all);
    names
}

/// The part `id` of a document. Nothing if its fonts are nested too deep.
fn read_part(document: &Arc<Document>, id: (u32, u16)) -> (r: Option<PdfPart>)
    ensures
        r matches Some(part) ==> part.id == id && is_part(**document, part) && has_shallow_fonts(
            **document,
            id,
        ),
{
    if !check_fonts(document, id) {
        return None;
    }
    let root: Vec<Vec<u8>> = Vec::new();
    let resources = vec![key("Resources")];
    let table = vec![key("Resources"), key("XObject")];
    assert(path_view(root@) =~= Seq::empty());
    assert(path_view(resources@) =~= resources_path());
    assert(path_view(table@) =~= resource_path("XObject"@));
    let parent = link(document, id, &root, "Parent");
    let forms = if entries(document, id, &resources).is_some() {
        match entries(document, id, &table) {
            Some(forms) => Some(forms),
            None => {
                let none: Vec<(Vec<u8>, Option<(u32, u16)>)> = Vec::new();
                assert(entries_view(none@) =~= Seq::empty());
                Some(none)
            },
        }
    } else {
        None
    };
    let draws = match stream_bytes(document, id, PDF_STACK) {
        Some(Some(bytes)) => match operations(bytes, PDF_STACK) {
            Some(list) => Some(names_drawn(&list)),
            None => None,
        },
        _ => None,
    };
    Some(PdfPart { id, parent, forms, draws })
}

/// The page `id` of a document.
fn read_page(document: &Arc<Document>, id: (u32, u16)) -> (r: PdfPage)
    ensures
        r.id == id,
        is_page(**document, r),
{
    let draws = match page_bytes(document, id, PDF_STACK) {
        Some(bytes) => match operations(bytes, PDF_STACK) {
            Some(list) => Some(names_drawn(&list)),
            None => None,
        },
        None => None,
    };
    PdfPage { id, draws }
}

/// The pages of a document.
fn read_pages(document: &Arc<Document>, ids: &Vec<(u32, u16)>) -> (r: Vec<PdfPage>)
    ensures
        r@.map_values(|page: PdfPage| page.id) == ids@,
        forall|i: int| 0 <= i < r@.len() ==> is_page(**document, #[trigger] r@[i]),
{
    let mut pages: Vec<PdfPage> = Vec::new();
    let mut i: usize = 0;
    while i < ids.len()
        invariant
            i <= ids@.len(),
            pages@.len() == i,
            forall|j: int| 0 <= j < i ==> (#[trigger] pages@[j]).id == ids@[j],
            forall|j: int| 0 <= j < i ==> is_page(**document, #[trigger] pages@[j]),
        decreases ids@.len() - i,
    {
        pages.push(read_page(document, ids[i]));
        i = i + 1;
    }
    assert(pages@.map_values(|page: PdfPage| page.id) =~= ids@);
    pages
}

/// The parts of a document that its pages lead to. Nothing if there are too many, or
/// if one has fonts that are nested too deep.
fn read_parts(document: &Arc<Document>, ids: Vec<(u32, u16)>) -> (r: Option<Vec<PdfPart>>)
    ensures
        r matches Some(parts) ==> forall|i: int|
            0 <= i < parts@.len() ==> is_part(**document, #[trigger] parts@[i])
                && has_shallow_fonts(**document, parts@[i].id),
{
    let mut parts: Vec<PdfPart> = Vec::new();
    let mut pending = ids;
    while pending.len() > 0
        invariant
            parts@.len() <= MAX_PARTS,
            forall|i: int|
                0 <= i < parts@.len() ==> is_part(**document, #[trigger] parts@[i])
                    && has_shallow_fonts(**document, parts@[i].id),
        decreases MAX_PARTS - parts@.len(), pending@.len(),
    {
        let id = match pending.pop() {
            Some(id) => id,
            None => {
                return None;
            },
        };
        if find_part(&parts, id).is_none() {
            if parts.len() == MAX_PARTS {
                return None;
            }
            let part = match read_part(document, id) {
                Some(part) => part,
                None => {
                    return None;
                },
            };
            if let Some(parent) = part.parent {
                pending.push(parent);
            }
            if let Some(forms) = &part.forms {
                let mut i: usize = 0;
                while i < forms.len()
                    invariant
                        i <= forms@.len(),
                    decreases forms@.len() - i,
                {
                    if let Some(form) = forms[i].1 {
                        pending.push(form);
                    }
                    i = i + 1;
                }
            }
            parts.push(part);
        }
    }
    Some(parts)
}

/// Reads a document, and decrypts it if it is encrypted without a password.
fn open_document(bytes: &[u8]) -> (r: Option<Document>) {
    let file = close_lengths(bytes);
    if !check_lengths(&file) {
        return None;
    }
    let document = match load_document(&file, PDF_STACK) {
        Some(document) => document,
        None => {
            return None;
        },
    };
    if is_encrypted(&document) {
        decrypted(document, PDF_STACK)
    } else {
        Some(document)
    }
}

/// The text of a PDF document. There is none if the document cannot be read, or if
/// reading it would not come to an end. It is the whole text that `pdf-extract` finds
/// in a document.
pub fn pdf_text(bytes: &[u8]) -> (r: Option<String>)
    ensures
        r matches Some(text) ==> exists|document: Document|
            text@ == (#[trigger] document_contents(document)).1,
{
    let document = match open_document(bytes) {
        Some(document) => Arc::new(document),
        None => {
            return None;
        },
    };
    let ids = page_ids(&document);
    let pages = read_pages(&document, &ids);
    match read_parts(&document, ids) {
        Some(parts) => if check_pages(&parts, &pages) {
            document_text(&document, &pages, &parts, PDF_STACK)
        } else {
            None
        },
        None => None,
    }
}

/// Each operation that draws a form gives its name, in order.
pub proof fn every_drawn_form_is_named(operations: Seq<(Seq<char>, Option<Seq<u8>>)>) -> (at: Seq<int>)
    ensures
        at.len() == drawn_names(operations).len(),
        forall|j: int|
            #![trigger at[j]]
            0 <= j < at.len() ==> 0 <= at[j] < operations.len() && operations[at[j]].0 == "Do"@ && drawn_names(operations)[j] == operations[at[j]].1,
        forall|i: int, j: int| 0 <= i < j < at.len() ==> at[i] < at[j],
        forall|k: int|
            #![trigger operations[k]]
            0 <= k < operations.len() && operations[k].0 == "Do"@ ==> at.contains(k),
    decreases operations.len(),
{
    if operations.len() == 0 {
        Seq::empty()
    } else {
        let front = operations.drop_last();
        let before = every_drawn_form_is_named(front);
        let n = operations.len() - 1;
        let taken = operations.last().0 == "Do"@;
        let at = if taken {
            before.push(n)
        } else {
            before
        };
        assert forall|j: int|
            #![trigger at[j]]
            0 <= j < at.len() implies 0 <= at[j] < operations.len() && operations[at[j]].0 == "Do"@ && drawn_names(operations)[j] == operations[at[j]].1 by {
            if j < before.len() {
                assert(at[j] == before[j]);
                assert(front[before[j]] == operations[at[j]]);
            }
        }
        assert forall|k: int|
            #![trigger operations[k]]
            0 <= k < operations.len() && operations[k].0 == "Do"@ implies at.contains(k) by {
            if k < n {
                assert(front[k] == operations[k]);
                let j = choose|j: int| 0 <= j < before.len() && before[j] == k;
                assert(at[j] == k);
            } else {
                assert(at[before.len() as int] == n);
            }
        }
        at
    }
}

/// An entry of a dictionary is the first one of its key.
pub proof fn the_first_entry_counts(
    entries: Seq<(Seq<u8>, Option<(u32, u16)>)>,
    key: Seq<u8>,
    from: int,
    i: int,
)
    requires
        0 <= from <= i <= entries.len(),
        forall|j: int| from <= j < i ==> (#[trigger] entries[j]).0 != key,
        i < entries.len() ==> entries[i].0 == key,
    ensures
        i < entries.len() ==> linked(entries, key, from) == entries[i].1,
        i == entries.len() ==> linked(entries, key, from) is None,
    decreases i - from,
{
    if from < i {
        assert(entries[from].0 != key);
        the_first_entry_counts(entries, key, from + 1, i);
    }
}

} // verus!
