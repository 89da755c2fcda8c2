//! The PDF object writer. It emits a document object by object into an
//! in-memory buffer and records where each object starts, so that the
//! cross-reference table it writes last points at every object it declared.
//!
//! Object numbers are fixed: 1 is the catalog, 2 the page tree, 3 the
//! outline root; page `k` (from 0) has its page dictionary at `4 + 3k`, its
//! image at `5 + 3k` and its content stream at `6 + 3k`; the outline entries
//! take the last numbers, after all pages.
use vstd::prelude::*;

use crate::config::PageConfig;
use crate::error::Error;
use crate::codec::{
    dims_of, encode_image, has_room, image_dimensions, jpeg_of, preprocess, preprocessed, spec_stream,
};
use crate::layout::{spec_resize_target, get_operands, page_dimensions, spec_operands, spec_page_dims, spec_position};
use crate::text::{
    dec, dec_padded, encode_unicode_string, escape_literal, lit, pdf_text, push_bytes, push_escaped, push_dec, push_dec_padded,
    push_str,
};

verus! {

/// The largest number of pages a document can declare: every object number
/// must fit in a `usize`.
pub const MAX_PAGES: usize = 0x3fff_fff0;

/// `N 0 obj` and the opening of its dictionary.
pub open spec fn obj_head(id: nat) -> Seq<u8> {
    dec(id) + lit(" 0 obj\n<<\n")
}

/// The close of a dictionary object.
pub open spec fn obj_tail() -> Seq<u8> {
    lit(">>\nendobj\n")
}

/// Object `id` starts at byte `p` of `doc`.
pub open spec fn header_at(doc: Seq<u8>, p: nat, id: nat) -> bool {
    &&& p + obj_head(id).len() <= doc.len()
    &&& doc.subrange(p as int, (p + obj_head(id).len()) as int) == obj_head(id)
}

/// Every recorded offset points at the start of its object.
pub open spec fn offsets_valid(doc: Seq<u8>, offsets: Seq<Option<usize>>) -> bool {
    forall|id: int|
        0 <= id < offsets.len() && (#[trigger] offsets[id]) is Some ==> header_at(
            doc,
            offsets[id]->Some_0 as nat,
            id as nat,
        )
}

/// The references to the first `n` page dictionaries.
pub open spec fn kids(n: nat) -> Seq<u8>
    decreases n,
{
    if n == 0 {
        seq![]
    } else {
        kids((n - 1) as nat) + dec((3 * (n - 1) + 4) as nat) + lit(" 0 R\n")
    }
}

/// The page tree, which lists all declared pages before they exist.
pub open spec fn pages_obj(total_pages: nat) -> Seq<u8> {
    obj_head(2) + lit("/Type /Pages\n/Count ") + dec(total_pages) + lit("/Kids [\n") + kids(
        total_pages,
    ) + lit("]\n") + obj_tail()
}

/// The catalog: page tree, outline root, and bookmarks shown on opening.
pub open spec fn catalog_obj() -> Seq<u8> {
    obj_head(1) + lit("/Type /Catalog\n/Pages 2 0 R\n/Outlines 3 0 R\n/PageMode /UseOutlines\n")
        + obj_tail()
}

/// Header, catalog and page tree: what a new document starts with.
pub open spec fn top_bytes(total_pages: nat) -> Seq<u8> {
    lit("%PDF-1.7\n") + catalog_obj() + pages_obj(total_pages)
}

/// The offsets recorded by a new document: the catalog right after the
/// 9-byte header, the page tree right after the catalog, nothing else yet.
pub open spec fn initial_offsets(total_pages: nat) -> Seq<Option<usize>> {
    Seq::new(
        4 + 3 * total_pages,
        |id: int|
            if id == 1 {
                Some(9usize)
            } else if id == 2 {
                Some((9 + catalog_obj().len()) as usize)
            } else {
                None
            },
    )
}

/// The filter chain of an image stream, in decoding order.
pub open spec fn filter(compress: bool) -> Seq<u8> {
    if compress {
        lit("/Filter [/FlateDecode /DCTDecode]\n")
    } else {
        lit("/Filter /DCTDecode\n")
    }
}

/// The dictionary entries of an image XObject whose stream has `len` bytes,
/// up to the start of the stream.
pub open spec fn image_dict(width: u32, height: u32, compress: bool, len: nat) -> Seq<u8> {
    lit("/Type /XObject\n/Subtype /Image\n/Width ") + dec(width as nat) + lit("\n/Height ") + dec(
        height as nat,
    ) + lit("\n/ColorSpace /DeviceRGB\n/BitsPerComponent 8\n") + filter(compress) + lit("/Length ")
        + dec(len) + lit("\n>>\nstream\n")
}

/// The image XObject.
pub open spec fn image_obj(id: nat, width: u32, height: u32, compress: bool, data: Seq<u8>) -> Seq<
    u8,
> {
    obj_head(id) + image_dict(width, height, compress, data.len()) + data + lit(
        "\nendstream\nendobj\n",
    )
}

fn image_dict_bytes(width: u32, height: u32, compress: bool, len: usize) -> (r: Vec<u8>)
    ensures
        r@ == image_dict(width, height, compress, len as nat),
{
    let mut dict: Vec<u8> = Vec::new();
    push_str(&mut dict, "/Type /XObject\n/Subtype /Image\n/Width ");
    push_dec(&mut dict, width as usize);
    push_str(&mut dict, "\n/Height ");
    push_dec(&mut dict, height as usize);
    push_str(&mut dict, "\n/ColorSpace /DeviceRGB\n/BitsPerComponent 8\n");
    if compress {
        push_str(&mut dict, "/Filter [/FlateDecode /DCTDecode]\n");
    } else {
        push_str(&mut dict, "/Filter /DCTDecode\n");
    }
    push_str(&mut dict, "/Length ");
    push_dec(&mut dict, len);
    push_str(&mut dict, "\n>>\nstream\n");
    proof {
        assert(dict@ =~= image_dict(width, height, compress, len as nat));
    }
    dict
}

/// The entries of a page dictionary: media box, the image as resource
/// `/Img`, contents; and its close.
pub open spec fn page_body(id: nat, page_width: nat, page_height: nat) -> Seq<u8> {
    lit("/Type /Page\n/Parent 2 0 R\n/MediaBox [0 0 ") + dec(page_width) + lit(" ") + dec(
        page_height,
    ) + lit("]\n/Resources <<\n/XObject <<\n/Img ") + dec(id + 1) + lit(
        " 0 R\n>>\n>>\n/Contents ",
    ) + dec(id + 2) + lit(" 0 R\n") + obj_tail()
}

/// The page dictionary object.
pub open spec fn page_obj(id: nat, page_width: nat, page_height: nat) -> Seq<u8> {
    obj_head(id) + page_body(id, page_width, page_height)
}

fn page_body_bytes(id: usize, page_width: u32, page_height: u32) -> (r: Vec<u8>)
    requires
        id + 2 < usize::MAX,
    ensures
        r@ == page_body(id as nat, page_width as nat, page_height as nat),
{
    let mut b: Vec<u8> = Vec::new();
    push_str(&mut b, "/Type /Page\n/Parent 2 0 R\n/MediaBox [0 0 ");
    push_dec(&mut b, page_width as usize);
    push_str(&mut b, " ");
    push_dec(&mut b, page_height as usize);
    push_str(&mut b, "]\n/Resources <<\n/XObject <<\n/Img ");
    push_dec(&mut b, id + 1);
    push_str(&mut b, " 0 R\n>>\n>>\n/Contents ");
    push_dec(&mut b, id + 2);
    push_str(&mut b, " 0 R\n");
    push_str(&mut b, ">>\nendobj\n");
    proof {
        assert(b@ =~= page_body(id as nat, page_width as nat, page_height as nat));
    }
    b
}

/// The content stream: save state, place the image, paint it, restore.
pub open spec fn contents(operands: Seq<u8>) -> Seq<u8> {
    lit("q\n") + operands + lit("/Img Do\nQ\n")
}

/// The content stream object.
pub open spec fn contents_obj(id: nat, stream: Seq<u8>) -> Seq<u8> {
    obj_head(id) + lit("/Length ") + dec(stream.len()) + lit("\n>>\nstream\n") + stream + lit(
        "\nendstream\nendobj\n",
    )
}

/// The three objects of page `k`, holding an image of `width` x `height`
/// whose stored stream is `data`.
pub open spec fn page_bytes(k: nat, width: u32, height: u32, data: Seq<u8>, cfg: PageConfig) -> Seq<
    u8,
> {
    let id = 4 + 3 * k;
    let pos = spec_position(cfg, width, height);
    let dims = spec_page_dims(cfg, width, height);
    image_obj(id + 1, width, height, cfg.compress, data) + page_obj(
        id,
        dims.0 as nat,
        dims.1 as nat,
    ) + contents_obj(id + 2, contents(spec_operands(width, height, pos.0, pos.1)))
}

/// The offsets after page `k` was written from byte `start` on: its image
/// first, then its page dictionary, then its content stream.
pub open spec fn page_offsets(
    offsets: Seq<Option<usize>>,
    start: nat,
    k: nat,
    width: u32,
    height: u32,
    data: Seq<u8>,
    cfg: PageConfig,
) -> Seq<Option<usize>> {
    let id = 4 + 3 * k;
    let image_len = image_obj(id + 1, width, height, cfg.compress, data).len();
    let dims = spec_page_dims(cfg, width, height);
    let page_len = page_obj(id, dims.0 as nat, dims.1 as nat).len();
    offsets.update((id + 1) as int, Some(start as usize)).update(id as int, Some((start + image_len) as usize)).update(
        (id + 2) as int,
        Some((start + image_len + page_len) as usize),
    )
}

/// The outline root; `first` and `last` are the numbers of the entries.
pub open spec fn outline_root(count: nat, first: nat, last: nat) -> Seq<u8> {
    obj_head(3) + outline_root_body(count, first, last)
}

/// The dictionary entries of outline entry `i` of `count`, numbered
/// `first + i`: its title, its parent, its destination page and its
/// neighbours.
pub open spec fn outline_body(i: nat, count: nat, first: nat, page_id: nat, title: Seq<u8>) -> Seq<
    u8,
> {
    lit("/Title (") + escape_literal(title) + lit(")\n\n/Parent 3 0 R\n/Dest [") + dec(page_id) + lit(
        " 0 R /XYZ 0 0 0]",
    ) + (if i > 0 {
        lit("/Prev ") + dec((first + i - 1) as nat) + lit(" 0 R\n")
    } else {
        seq![]
    }) + (if i + 1 < count {
        lit("/Next ") + dec(first + i + 1) + lit(" 0 R\n")
    } else {
        seq![]
    }) + obj_tail()
}

/// Outline entry `i` of `count`, numbered `first + i`.
pub open spec fn outline_entry(i: nat, count: nat, first: nat, page_id: nat, title: Seq<u8>) -> Seq<
    u8,
> {
    obj_head(first + i) + outline_body(i, count, first, page_id, title)
}

/// The dictionary entries of the outline root.
pub open spec fn outline_root_body(count: nat, first: nat, last: nat) -> Seq<u8> {
    lit("/Type /Outlines\n/Count ") + dec(count) + (if count > 0 {
        lit("/First ") + dec(first) + lit(" 0 R\n/Last ") + dec(last) + lit(" 0 R\n")
    } else {
        seq![]
    }) + obj_tail()
}

fn outline_root_bytes(count: usize, first: usize, last: usize) -> (r: Vec<u8>)
    ensures
        r@ == outline_root_body(count as nat, first as nat, last as nat),
{
    let mut b: Vec<u8> = Vec::new();
    push_str(&mut b, "/Type /Outlines\n/Count ");
    push_dec(&mut b, count);
    if count > 0 {
        push_str(&mut b, "/First ");
        push_dec(&mut b, first);
        push_str(&mut b, " 0 R\n/Last ");
        push_dec(&mut b, last);
        push_str(&mut b, " 0 R\n");
    }
    push_str(&mut b, ">>\nendobj\n");
    proof {
        assert(b@ =~= outline_root_body(count as nat, first as nat, last as nat));
    }
    b
}

fn outline_body_bytes(i: usize, count: usize, first: usize, page_id: usize, title: &[u8]) -> (r: Vec<
    u8,
>)
    requires
        i < count,
        first + count < usize::MAX,
    ensures
        r@ == outline_body(i as nat, count as nat, first as nat, page_id as nat, title@),
{
    let mut b: Vec<u8> = Vec::new();
    push_str(&mut b, "/Title (");
    push_escaped(&mut b, title);
    push_str(&mut b, ")\n\n/Parent 3 0 R\n/Dest [");
    push_dec(&mut b, page_id);
    push_str(&mut b, " 0 R /XYZ 0 0 0]");
    let ghost mid = b@;
    if i > 0 {
        push_str(&mut b, "/Prev ");
        push_dec(&mut b, first + i - 1);
        push_str(&mut b, " 0 R\n");
    }
    let ghost mid2 = b@;
    assert(mid2 == mid + (if i > 0 {
        lit("/Prev ") + dec((first + i - 1) as nat) + lit(" 0 R\n")
    } else {
        seq![]
    })) by {
        if i > 0 {
            assert(mid2 =~= mid + lit("/Prev ") + dec((first + i - 1) as nat) + lit(" 0 R\n"));
        } else {
            assert(mid2 =~= mid + seq![]);
        }
    }
    if i + 1 < count {
        push_str(&mut b, "/Next ");
        push_dec(&mut b, first + i + 1);
        push_str(&mut b, " 0 R\n");
    }
    let ghost mid3 = b@;
    assert(mid3 == mid2 + (if i + 1 < count {
        lit("/Next ") + dec((first + i + 1) as nat) + lit(" 0 R\n")
    } else {
        seq![]
    })) by {
        if i + 1 < count {
            assert(mid3 =~= mid2 + lit("/Next ") + dec((first + i + 1) as nat) + lit(" 0 R\n"));
        } else {
            assert(mid3 =~= mid2 + seq![]);
        }
    }
    push_str(&mut b, ">>\nendobj\n");
    proof {
        assert(b@ =~= outline_body(i as nat, count as nat, first as nat, page_id as nat, title@));
    }
    b
}

/// The first `k` outline entries.
pub open spec fn outline_entries(outlines: Seq<(nat, Seq<u8>)>, first: nat, k: nat) -> Seq<u8>
    decreases k,
{
    if k == 0 || k > outlines.len() {
        seq![]
    } else {
        outline_entries(outlines, first, (k - 1) as nat) + outline_entry(
            (k - 1) as nat,
            outlines.len(),
            first,
            outlines[k - 1].0,
            outlines[k - 1].1,
        )
    }
}

/// The outline root followed by its entries, numbered from `first` to `last`.
pub open spec fn outline_section(outlines: Seq<(nat, Seq<u8>)>, first: nat, last: nat) -> Seq<u8> {
    outline_root(outlines.len(), first, last) + outline_entries(outlines, first, outlines.len())
}

/// The cross-reference lines of objects `1..=k`.
pub open spec fn xref_entries(offsets: Seq<Option<usize>>, k: nat) -> Seq<u8>
    decreases k,
{
    if k == 0 {
        seq![]
    } else {
        xref_entries(offsets, (k - 1) as nat) + dec_padded(offsets[k as int]->Some_0 as nat, 10)
            + lit(" 00000 n\n")
    }
}

/// The cross-reference table of objects `0..=n`, object 0 being the head
/// of the free list.
pub open spec fn xref_bytes(offsets: Seq<Option<usize>>, n: nat) -> Seq<u8> {
    lit("xref\n0 ") + dec(n + 1) + lit("\n0000000000 65535 f\n") + xref_entries(offsets, n)
}

/// The trailer: object count, root, and where the cross-reference table is.
pub open spec fn trailer_bytes(n: nat, xref_offset: nat) -> Seq<u8> {
    lit("trailer\n<<\n/Size ") + dec(n) + lit("\n/Root 1 0 R\n>>\nstartxref\n") + dec(xref_offset)
        + lit("\n%%EOF\n")
}

/// The configuration a page is laid out with: its own, or the document's.
pub open spec fn chosen_config(page_config: Option<PageConfig>, default: PageConfig) -> PageConfig {
    match page_config {
        Some(c) => c,
        None => default,
    }
}

/// The outline list after a page numbered `page_id` was added with `title`.
pub open spec fn outlines_after(
    outlines: Seq<(nat, Seq<u8>)>,
    page_id: nat,
    title: Option<Seq<char>>,
) -> Seq<(nat, Seq<u8>)> {
    match title {
        Some(t) => outlines.push((page_id, pdf_text(t))),
        None => outlines,
    }
}

/// The title of an outline entry, as characters.
pub open spec fn title_view(outline: Option<String>) -> Option<Seq<char>> {
    match outline {
        Some(t) => Some(t@),
        None => None,
    }
}

/// What adding a page that holds `image` does when pages remain: the
/// outcome is decided by the codec alone, an error leaves the writer as it
/// was, and success writes the page with the image's JPEG (zlib-wrapped when
/// `cfg` asks for it) and records it.
pub open spec fn prepared_outcome(
    old: PdfState,
    new: PdfState,
    r: Result<(), Error>,
    image: image::DynamicImage,
    title: Option<Seq<char>>,
    cfg: PageConfig,
) -> bool {
    let jpeg = jpeg_of(image, cfg.quality);
    let dims = dims_of(image);
    &&& jpeg is Some && !cfg.compress ==> r is Ok
    &&& jpeg is None ==> r is Err && r->Err_0 is Image
    &&& jpeg is Some && r is Err ==> cfg.compress && r->Err_0 is Io
    &&& r is Err ==> new == old
    &&& r is Ok ==> new == (PdfState {
        bytes: old.bytes + page_bytes(
            old.current_page,
            dims.0,
            dims.1,
            spec_stream(jpeg->Some_0, cfg.compress),
            cfg,
        ),
        current_page: old.current_page + 1,
        outlines: outlines_after(old.outlines, 4 + 3 * old.current_page, title),
        offsets: page_offsets(
            old.offsets,
            old.bytes.len(),
            old.current_page,
            dims.0,
            dims.1,
            spec_stream(jpeg->Some_0, cfg.compress),
            cfg,
        ),
        ..old
    })
}

/// What a writer holds, as mathematical values.
pub struct PdfState {
    /// Everything written so far.
    pub bytes: Seq<u8>,
    pub default_config: PageConfig,
    /// Pages written so far.
    pub current_page: nat,
    /// Pages declared when the document was created.
    pub total_pages: nat,
    /// Outline entries in insertion order: page object number and the
    /// title as a PDF text string.
    pub outlines: Seq<(nat, Seq<u8>)>,
    /// Indexed by object number: where each object written so far starts.
    pub offsets: Seq<Option<usize>>,
}

/// Number of objects of a document: three fixed ones, three per declared
/// page, one per outline entry.
pub open spec fn spec_total_objects(st: PdfState) -> nat {
    3 + 3 * st.total_pages + st.outlines.len()
}

/// Where the outline entries start when the outline section is written from
/// byte `start` on: entry `i` follows the root and the entries before it.
pub open spec fn outline_offsets(
    outlines: Seq<(nat, Seq<u8>)>,
    first: nat,
    last: nat,
    start: nat,
) -> Seq<Option<usize>> {
    Seq::new(
        outlines.len(),
        |i: int|
            Some(
                (start + outline_root(outlines.len(), first, last).len() + outline_entries(
                    outlines,
                    first,
                    i as nat,
                ).len()) as usize,
            ),
    )
}

/// The offsets of a finished document: those of `st`, the outline root at
/// the end of `st`'s bytes, then the outline entries.
pub open spec fn closing_offsets(st: PdfState) -> Seq<Option<usize>> {
    let n = spec_total_objects(st);
    let first = (n - st.outlines.len() + 1) as nat;
    st.offsets.update(3, Some(st.bytes.len() as usize)) + outline_offsets(
        st.outlines,
        first,
        n,
        st.bytes.len(),
    )
}

/// A finished document: `st`'s bytes, the outline section, the
/// cross-reference table and the trailer. The table has one line for each
/// object `1..=n`, in order, giving the offset at which that object was
/// written, and each of those offsets holds the object's header.
pub open spec fn finished_document(doc: Seq<u8>, st: PdfState) -> bool {
    let n = spec_total_objects(st);
    let first = (n - st.outlines.len() + 1) as nat;
    let section = outline_section(st.outlines, first, n);
    let offsets = closing_offsets(st);
    &&& offsets.len() == n + 1
    &&& forall|id: int| 1 <= id <= n ==> (#[trigger] offsets[id]) is Some
    &&& offsets_valid(doc, offsets)
    &&& doc == st.bytes + section + xref_bytes(offsets, n) + trailer_bytes(
        n,
        st.bytes.len() + section.len(),
    )
}

/// A document in progress.
pub struct PDF {
    default_page_config: PageConfig,
    out: Vec<u8>,
    current_page: usize,
    total_pages: usize,
    outlines: Vec<(usize, Vec<u8>)>,
    xref_offset: usize,
    object_offsets: Vec<Option<usize>>,
}

pub open spec fn outline_view(e: (usize, Vec<u8>)) -> (nat, Seq<u8>) {
    (e.0 as nat, e.1@)
}

impl View for PDF {
    type V = PdfState;

    closed spec fn view(&self) -> PdfState {
        PdfState {
            bytes: self.out@,
            default_config: self.default_page_config,
            current_page: self.current_page as nat,
            total_pages: self.total_pages as nat,
            outlines: self.outlines@.map_values(|e: (usize, Vec<u8>)| outline_view(e)),
            offsets: self.object_offsets@,
        }
    }
}

/// Appending to a document keeps every recorded offset valid.
proof fn lemma_append_keeps_offsets(doc: Seq<u8>, extra: Seq<u8>, offsets: Seq<Option<usize>>)
    requires
        offsets_valid(doc, offsets),
    ensures
        offsets_valid(doc + extra, offsets),
{
    assert forall|id: int| 0 <= id < offsets.len() && (#[trigger] offsets[id]) is Some implies header_at(
        doc + extra,
        offsets[id]->Some_0 as nat,
        id as nat,
    ) by {
        let p = offsets[id]->Some_0 as int;
        let l = obj_head(id as nat).len() as int;
        assert((doc + extra).subrange(p, p + l) =~= doc.subrange(p, p + l));
    }
}

impl PDF {
    /// The buffer and the offset table agree, and object numbers fit.
    closed spec fn wf_bytes(&self) -> bool {
        &&& offsets_valid(self.out@, self.object_offsets@)
        &&& self.total_pages <= MAX_PAGES
        &&& self.object_offsets@.len() >= 4 + 3 * self.total_pages
        &&& self.current_page <= self.total_pages
        &&& self.outlines@.len() <= self.current_page
        &&& self.object_offsets@.len() <= 4 + 3 * self.total_pages + self.outlines@.len()
    }

    /// Well-formed while pages are written: objects 1, 2 and those of the
    /// pages written so far are recorded, and no other.
    pub closed spec fn wf(&self) -> bool {
        &&& self.wf_bytes()
        &&& self.object_offsets@.len() == 4 + 3 * self.total_pages
        &&& forall|id: int|
            0 <= id < self.object_offsets@.len() ==> ((#[trigger] self.object_offsets@[id]) is Some
                <==> (id == 1 || id == 2 || 4 <= id < 4 + 3 * self.current_page))
    }

    /// Every field but the buffer and the offset table is unchanged.
    closed spec fn same_frame(&self, other: &PDF) -> bool {
        &&& self.default_page_config == other.default_page_config
        &&& self.current_page == other.current_page
        &&& self.total_pages == other.total_pages
        &&& self.outlines@ == other.outlines@
        &&& self.xref_offset == other.xref_offset
    }

    fn emit(&mut self, s: &str)
        requires
            old(self).wf_bytes(),
        ensures
            final(self).wf_bytes(),
            final(self).same_frame(old(self)),
            final(self).object_offsets@ == old(self).object_offsets@,
            final(self).out@ == old(self).out@ + lit(s),
    {
        proof {
            lemma_append_keeps_offsets(self.out@, lit(s), self.object_offsets@);
        }
        push_str(&mut self.out, s);
    }

    fn emit_bytes(&mut self, b: &[u8])
        requires
            old(self).wf_bytes(),
        ensures
            final(self).wf_bytes(),
            final(self).same_frame(old(self)),
            final(self).object_offsets@ == old(self).object_offsets@,
            final(self).out@ == old(self).out@ + b@,
    {
        proof {
            lemma_append_keeps_offsets(self.out@, b@, self.object_offsets@);
        }
        push_bytes(&mut self.out, b);
    }

    fn emit_dec(&mut self, n: usize)
        requires
            old(self).wf_bytes(),
        ensures
            final(self).wf_bytes(),
            final(self).same_frame(old(self)),
            final(self).object_offsets@ == old(self).object_offsets@,
            final(self).out@ == old(self).out@ + dec(n as nat),
    {
        proof {
            lemma_append_keeps_offsets(self.out@, dec(n as nat), self.object_offsets@);
        }
        push_dec(&mut self.out, n);
    }

    fn emit_padded(&mut self, n: usize, width: usize)
        requires
            old(self).wf_bytes(),
        ensures
            final(self).wf_bytes(),
            final(self).same_frame(old(self)),
            final(self).object_offsets@ == old(self).object_offsets@,
            final(self).out@ == old(self).out@ + dec_padded(n as nat, width as nat),
    {
        proof {
            lemma_append_keeps_offsets(
                self.out@,
                dec_padded(n as nat, width as nat),
                self.object_offsets@,
            );
        }
        push_dec_padded(&mut self.out, n, width);
    }

    /// Records that object `id` starts here, and opens it.
    fn obj_start(&mut self, id: usize)
        requires
            old(self).wf_bytes(),
            id < old(self).object_offsets@.len(),
        ensures
            final(self).wf_bytes(),
            final(self).same_frame(old(self)),
            final(self).object_offsets@ == old(self).object_offsets@.update(
                id as int,
                Some(old(self).out@.len() as usize),
            ),
            final(self).out@ == old(self).out@ + obj_head(id as nat),
    {
        let offset = self.out.len();
        self.emit_dec(id);
        self.emit(" 0 obj\n<<\n");
        self.object_offsets.set(id, Some(offset));
        proof {
            let doc = self.out@;
            assert(doc =~= old(self).out@ + obj_head(id as nat));
            assert(doc.subrange(offset as int, offset + obj_head(id as nat).len()) =~= obj_head(
                id as nat,
            ));
            assert forall|j: int|
                0 <= j < self.object_offsets@.len() && (#[trigger] self.object_offsets@[j]) is Some implies header_at(
                doc,
                self.object_offsets@[j]->Some_0 as nat,
                j as nat,
            ) by {
                if j != id {
                    assert(old(self).object_offsets@[j] == self.object_offsets@[j]);
                }
            }
        }
    }

    fn obj_end(&mut self)
        requires
            old(self).wf_bytes(),
        ensures
            final(self).wf_bytes(),
            final(self).same_frame(old(self)),
            final(self).object_offsets@ == old(self).object_offsets@,
            final(self).out@ == old(self).out@ + obj_tail(),
    {
        self.emit(">>\nendobj\n");
    }

    fn write_pages(&mut self)
        requires
            old(self).wf_bytes(),
            2 < old(self).object_offsets@.len(),
        ensures
            final(self).wf_bytes(),
            final(self).same_frame(old(self)),
            final(self).object_offsets@ == old(self).object_offsets@.update(
                2,
                Some(old(self).out@.len() as usize),
            ),
            final(self).out@ == old(self).out@ + pages_obj(old(self).total_pages as nat),
    {
        self.obj_start(2);
        self.emit("/Type /Pages\n/Count ");
        self.emit_dec(self.total_pages);
        self.emit("/Kids [\n");
        let ghost before = self.out@;
        let mut k: usize = 0;
        while k < self.total_pages
            invariant
                self.wf_bytes(),
                self.same_frame(old(self)),
                self.object_offsets@ == old(self).object_offsets@.update(
                    2,
                    Some(old(self).out@.len() as usize),
                ),
                k <= self.total_pages,
                self.out@ == before + kids(k as nat),
            decreases self.total_pages - k,
        {
            self.emit_dec(3 * k + 4);
            self.emit(" 0 R\n");
            k = k + 1;
            proof {
                assert(self.out@ =~= before + kids(k as nat));
            }
        }
        self.emit("]\n");
        self.obj_end();
        proof {
            assert(self.out@ =~= old(self).out@ + pages_obj(old(self).total_pages as nat));
        }
    }

    fn write_top(&mut self)
        requires
            old(self).wf_bytes(),
            old(self).object_offsets@.len() > 2,
        ensures
            final(self).wf_bytes(),
            final(self).same_frame(old(self)),
            final(self).object_offsets@ == old(self).object_offsets@.update(
                1,
                Some((old(self).out@.len() + 9) as usize),
            ).update(2, Some((old(self).out@.len() + 9 + catalog_obj().len()) as usize)),
            final(self).out@ == old(self).out@ + top_bytes(old(self).total_pages as nat),
    {
        self.emit("%PDF-1.7\n");
        proof {
            reveal_strlit("%PDF-1.7\n");
            assert(vstd::string::is_ascii("%PDF-1.7\n"));
            vstd::string::is_ascii_spec_bytes("%PDF-1.7\n");
            assert(lit("%PDF-1.7\n").len() == 9);
        }
        self.obj_start(1);
        self.emit("/Type /Catalog\n/Pages 2 0 R\n/Outlines 3 0 R\n/PageMode /UseOutlines\n");
        self.obj_end();
        self.write_pages();
        proof {
            assert(self.out@ =~= old(self).out@ + top_bytes(old(self).total_pages as nat));
        }
    }

    /// A new document declaring `total_pages` pages: header, catalog and page
    /// tree are written at once.
    pub fn create(default_page_config: PageConfig, total_pages: usize) -> (r: PDF)
        requires
            total_pages <= MAX_PAGES,
        ensures
            r.wf(),
            r@ == (PdfState {
                bytes: top_bytes(total_pages as nat),
                default_config: default_page_config,
                current_page: 0,
                total_pages: total_pages as nat,
                outlines: seq![],
                offsets: initial_offsets(total_pages as nat),
            }),
    {
        let mut object_offsets: Vec<Option<usize>> = Vec::new();
        let n: usize = 4 + 3 * total_pages;
        while object_offsets.len() < n
            invariant
                object_offsets@.len() <= n,
                forall|id: int| 0 <= id < object_offsets@.len() ==> (#[trigger] object_offsets@[id]) is None,
            decreases n - object_offsets@.len(),
        {
            object_offsets.push(None);
        }
        let mut pdf = PDF {
            default_page_config,
            out: Vec::new(),
            current_page: 0,
            total_pages,
            outlines: Vec::new(),
            xref_offset: 0,
            object_offsets,
        };
        pdf.write_top();
        proof {
            assert(pdf.out@ =~= top_bytes(total_pages as nat));
            assert(pdf.object_offsets@ =~= initial_offsets(total_pages as nat));
            assert(pdf.outlines@.map_values(|e: (usize, Vec<u8>)| outline_view(e)) =~= seq![]);
        }
        pdf
    }

    /// Number of objects: three fixed ones, three per declared page, one per
    /// outline entry.
    pub fn total_objects(&self) -> (r: usize)
        requires
            self.wf(),
        ensures
            r == spec_total_objects(self@),
            r == 3 + 3 * self@.total_pages + self@.outlines.len(),
    {
        3 + self.total_pages * 3 + self.outlines.len()
    }

    fn write_image_obj(&mut self, id: usize, width: u32, height: u32, compress: bool, data: &Vec<u8>)
        requires
            old(self).wf_bytes(),
            id < old(self).object_offsets@.len(),
        ensures
            final(self).wf_bytes(),
            final(self).same_frame(old(self)),
            final(self).object_offsets@ == old(self).object_offsets@.update(
                id as int,
                Some(old(self).out@.len() as usize),
            ),
            final(self).out@ == old(self).out@ + image_obj(id as nat, width, height, compress, data@),
    {
        let dict = image_dict_bytes(width, height, compress, data.len());
        self.obj_start(id);
        self.emit_bytes(dict.as_slice());
        self.emit_bytes(data.as_slice());
        self.emit("\nendstream\nendobj\n");
        proof {
            assert(self.out@ =~= old(self).out@ + image_obj(id as nat, width, height, compress, data@));
        }
    }

    fn write_page_obj(&mut self, id: usize, page_width: u32, page_height: u32)
        requires
            old(self).wf_bytes(),
            id + 2 < old(self).object_offsets@.len(),
        ensures
            final(self).wf_bytes(),
            final(self).same_frame(old(self)),
            final(self).object_offsets@ == old(self).object_offsets@.update(
                id as int,
                Some(old(self).out@.len() as usize),
            ),
            final(self).out@ == old(self).out@ + page_obj(id as nat, page_width as nat, page_height as nat),
    {
        let body = page_body_bytes(id, page_width, page_height);
        self.obj_start(id);
        self.emit_bytes(body.as_slice());
        proof {
            assert(self.out@ =~= old(self).out@ + page_obj(id as nat, page_width as nat, page_height as nat));
        }
    }

    fn write_contents_obj(&mut self, id: usize, stream: &Vec<u8>)
        requires
            old(self).wf_bytes(),
            id < old(self).object_offsets@.len(),
        ensures
            final(self).wf_bytes(),
            final(self).same_frame(old(self)),
            final(self).object_offsets@ == old(self).object_offsets@.update(
                id as int,
                Some(old(self).out@.len() as usize),
            ),
            final(self).out@ == old(self).out@ + contents_obj(id as nat, stream@),
    {
        self.obj_start(id);
        self.emit("/Length ");
        self.emit_dec(stream.len());
        self.emit("\n>>\nstream\n");
        self.emit_bytes(stream.as_slice());
        self.emit("\nendstream\nendobj\n");
        proof {
            assert(self.out@ =~= old(self).out@ + contents_obj(id as nat, stream@));
        }
    }

    /// Writes one page whose image is already encoded: `data` is the stored
    /// stream (JPEG, zlib-wrapped when the page's config asks for it) of an
    /// image of `width` x `height`. The page is laid out with `page_config`,
    /// or the document's default; a title adds an outline entry.
    #[verifier::rlimit(50)]
    pub fn add_page_encoded(
        &mut self,
        width: u32,
        height: u32,
        data: Vec<u8>,
        outline: Option<String>,
        page_config: Option<PageConfig>,
    ) -> (r: Result<(), Error>)
        requires
            old(self).wf(),
        ensures
            final(self).wf(),
            r is Ok <==> old(self)@.current_page < old(self)@.total_pages,
            r is Err ==> r->Err_0 is PageOverflow && final(self)@ == old(self)@,
            r is Ok ==> final(self)@ == (PdfState {
                bytes: old(self)@.bytes + page_bytes(
                    old(self)@.current_page,
                    width,
                    height,
                    data@,
                    chosen_config(page_config, old(self)@.default_config),
                ),
                current_page: old(self)@.current_page + 1,
                outlines: outlines_after(
                    old(self)@.outlines,
                    4 + 3 * old(self)@.current_page,
                    match outline {
                        Some(t) => Some(t@),
                        None => None,
                    },
                ),
                offsets: page_offsets(
                    old(self)@.offsets,
                    old(self)@.bytes.len(),
                    old(self)@.current_page,
                    width,
                    height,
                    data@,
                    chosen_config(page_config, old(self)@.default_config),
                ),
                ..old(self)@
            }),
    {
        if self.current_page >= self.total_pages {
            return Err(Error::PageOverflow);
        }
        let cfg = match page_config {
            Some(c) => c,
            None => self.default_page_config,
        };
        let i = self.current_page * 3 + 4;
        let operands = get_operands((width, height), &cfg);
        let mut stream: Vec<u8> = Vec::new();
        push_str(&mut stream, "q\n");
        push_bytes(&mut stream, operands.as_slice());
        push_str(&mut stream, "/Img Do\nQ\n");
        let (page_width, page_height) = page_dimensions((width, height), &cfg);

        self.write_image_obj(i + 1, width, height, cfg.compress, &data);
        self.write_page_obj(i, page_width, page_height);
        self.write_contents_obj(i + 2, &stream);
        proof {
            assert(stream@ =~= contents(operands@));
            assert(self.out@ =~= old(self).out@ + page_bytes(
                old(self)@.current_page,
                width,
                height,
                data@,
                cfg,
            ));
        }
        match outline {
            Some(title) => {
                let encoded = encode_unicode_string(title.as_str());
                self.outlines.push((i, encoded));
            },
            None => {},
        }
        self.current_page = self.current_page + 1;
        proof {
            assert forall|id: int| 0 <= id < self.object_offsets@.len() implies ((
            #[trigger] self.object_offsets@[id]) is Some <==> (id == 1 || id == 2 || 4 <= id < 4 + 3
                * self.current_page)) by {
                if id != i && id != i + 1 && id != i + 2 {
                    assert(self.object_offsets@[id] == old(self).object_offsets@[id]);
                }
            }
            assert(self@.outlines =~= outlines_after(
                old(self)@.outlines,
                4 + 3 * old(self)@.current_page,
                match outline {
                    Some(t) => Some(t@),
                    None => None,
                },
            ));
        }
        Ok(())
    }

    /// Writes the outline root (object 3) and its entries, which take the
    /// last object numbers. Afterwards every object `1..=n` is recorded.
    fn write_outlines(&mut self)
        requires
            old(self).wf(),
            old(self).current_page == old(self).total_pages,
        ensures
            final(self).wf_bytes(),
            final(self).same_frame(old(self)),
            final(self).object_offsets@.len() == spec_total_objects(old(self)@) + 1,
            final(self).object_offsets@ == closing_offsets(old(self)@),
            forall|id: int|
                1 <= id <= spec_total_objects(old(self)@) ==> (
                #[trigger] final(self).object_offsets@[id]) is Some,
            final(self).out@ == old(self).out@ + outline_section(
                old(self)@.outlines,
                (spec_total_objects(old(self)@) - old(self)@.outlines.len() + 1) as nat,
                spec_total_objects(old(self)@),
            ),
    {
        let n = self.total_objects();
        let count = self.outlines.len();
        let first = n - count + 1;
        let ghost outlines = self@.outlines;
        self.obj_start(3);
        let root = outline_root_bytes(count, first, n);
        self.emit_bytes(root.as_slice());
        let ghost after_root = self.out@;
        let ghost offs_root = self.object_offsets@;
        assert(after_root =~= old(self).out@ + outline_root(count as nat, first as nat, n as nat));
        while self.object_offsets.len() < n + 1
            invariant
                self.wf_bytes(),
                self.same_frame(old(self)),
                self.out@ == after_root,
                n + 1 == 4 + 3 * self.total_pages + self.outlines@.len(),
                first == 4 + 3 * self.total_pages,
                offs_root.len() == first,
                first <= self.object_offsets@.len() <= n + 1,
                forall|id: int| 0 <= id < first ==> #[trigger] self.object_offsets@[id] == offs_root[id],
                forall|id: int|
                    first <= id < self.object_offsets@.len() ==> (#[trigger] self.object_offsets@[id]) is None,
            decreases n + 1 - self.object_offsets@.len(),
        {
            self.object_offsets.push(None);
        }
        let mut k: usize = 0;
        while k < count
            invariant
                self.wf_bytes(),
                self.same_frame(old(self)),
                outlines == self@.outlines,
                count == outlines.len(),
                n == spec_total_objects(old(self)@),
                first == n - count + 1,
                first == 4 + 3 * self.total_pages,
                self.object_offsets@.len() == n + 1,
                k <= count,
                forall|id: int| 0 <= id < first ==> #[trigger] self.object_offsets@[id] == offs_root[id],
                forall|id: int|
                    first <= id < first + k ==> (#[trigger] self.object_offsets@[id]) == Some(
                        (old(self).out@.len() + outline_root(count as nat, first as nat, n as nat).len()
                            + outline_entries(outlines, first as nat, (id - first) as nat).len()) as usize,
                    ),
                after_root.len() == old(self).out@.len() + outline_root(count as nat, first as nat, n as nat).len(),
                self.out@ == after_root + outline_entries(outlines, first as nat, k as nat),
            decreases count - k,
        {
            let page_id = self.outlines[k].0;
            let body = outline_body_bytes(k, count, first, page_id, self.outlines[k].1.as_slice());
            let ghost before = self.out@;
            self.obj_start(first + k);
            self.emit_bytes(body.as_slice());
            proof {
                assert(outlines[k as int] == outline_view(self.outlines@[k as int]));
                assert(self.out@ =~= after_root + outline_entries(outlines, first as nat, (k + 1) as nat));
            }
            k = k + 1;
        }
        proof {
            assert forall|id: int|
                1 <= id <= spec_total_objects(old(self)@) implies (
                #[trigger] self.object_offsets@[id]) is Some by {
                if id < first {
                    assert(self.object_offsets@[id] == offs_root[id]);
                    if id != 3 {
                        assert(old(self).object_offsets@[id] == offs_root[id]);
                    }
                }
            }
            assert(self.out@ =~= old(self).out@ + outline_section(outlines, first as nat, n as nat));
            assert(self.object_offsets@ =~= closing_offsets(old(self)@));
        }
    }

    fn write_xref(&mut self, n: usize)
        requires
            old(self).wf_bytes(),
            old(self).object_offsets@.len() == n + 1,
            n < usize::MAX,
            forall|id: int| 1 <= id <= n ==> (#[trigger] old(self).object_offsets@[id]) is Some,
        ensures
            final(self).wf_bytes(),
            final(self).same_frame(old(self)),
            final(self).object_offsets@ == old(self).object_offsets@,
            final(self).out@ == old(self).out@ + xref_bytes(old(self).object_offsets@, n as nat),
    {
        self.emit("xref\n0 ");
        self.emit_dec(n + 1);
        self.emit("\n0000000000 65535 f\n");
        let ghost head = self.out@;
        let mut id: usize = 1;
        while id <= n
            invariant
                self.wf_bytes(),
                self.same_frame(old(self)),
                self.object_offsets@ == old(self).object_offsets@,
                self.object_offsets@.len() == n + 1,
                n < usize::MAX,
                1 <= id <= n + 1,
                forall|j: int| 1 <= j <= n ==> (#[trigger] self.object_offsets@[j]) is Some,
                self.out@ == head + xref_entries(self.object_offsets@, (id - 1) as nat),
            decreases n + 1 - id,
        {
            let offset = self.object_offsets[id].unwrap();
            self.emit_padded(offset, 10);
            self.emit(" 00000 n\n");
            proof {
                assert(self.out@ =~= head + xref_entries(self.object_offsets@, id as nat));
            }
            id = id + 1;
        }
        proof {
            assert(self.out@ =~= old(self).out@ + xref_bytes(old(self).object_offsets@, n as nat));
        }
    }

    fn write_trailer(&mut self, n: usize)
        requires
            old(self).wf_bytes(),
        ensures
            final(self).wf_bytes(),
            final(self).same_frame(old(self)),
            final(self).object_offsets@ == old(self).object_offsets@,
            final(self).out@ == old(self).out@ + trailer_bytes(n as nat, old(self).xref_offset as nat),
    {
        self.emit("trailer\n<<\n/Size ");
        self.emit_dec(n);
        self.emit("\n/Root 1 0 R\n>>\nstartxref\n");
        self.emit_dec(self.xref_offset);
        self.emit("\n%%EOF\n");
        proof {
            assert(self.out@ =~= old(self).out@ + trailer_bytes(n as nat, old(self).xref_offset as nat));
        }
    }

    /// Writes the outlines, the cross-reference table and the trailer, and
    /// hands back the whole document. Fails, writing nothing, when fewer
    /// pages were added than declared.
    pub fn finish(self) -> (r: Result<Vec<u8>, Error>)
        requires
            self.wf(),
        ensures
            r is Err <==> self@.current_page < self@.total_pages,
            r is Err ==> r->Err_0 is MissingPages,
            r is Ok ==> finished_document(r->Ok_0@, self@),
    {
        if self.current_page < self.total_pages {
            return Err(Error::MissingPages);
        }
        let ghost st = self@;
        let mut pdf = self;
        let n = pdf.total_objects();
        pdf.write_outlines();
        let ghost section = outline_section(st.outlines, (n - st.outlines.len() + 1) as nat, n as nat);
        pdf.xref_offset = pdf.out.len();
        proof {
            assert(pdf.wf_bytes());
        }
        pdf.write_xref(n);
        pdf.write_trailer(n);
        proof {
            let offsets = pdf.object_offsets@;
            assert(offsets == closing_offsets(st));
            assert(pdf.out@ =~= st.bytes + section + xref_bytes(offsets, n as nat) + trailer_bytes(
                n as nat,
                st.bytes.len() + section.len(),
            ));
            assert(forall|id: int| 1 <= id <= n ==> (#[trigger] offsets[id]) is Some);
        }
        Ok(pdf.out)
    }

    /// Adds a page holding `image` as it is, already fitted to its page:
    /// the image is encoded at the configured quality and written as the
    /// next page. On any error nothing is written.
    pub fn add_page_prepared(
        &mut self,
        image: image::DynamicImage,
        outline: Option<String>,
        page_config: Option<PageConfig>,
    ) -> (r: Result<(), Error>)
        requires
            old(self).wf(),
        ensures
            final(self).wf(),
            old(self)@.current_page >= old(self)@.total_pages ==> r is Err && r->Err_0 is PageOverflow
                && final(self)@ == old(self)@,
            old(self)@.current_page < old(self)@.total_pages ==> prepared_outcome(
                old(self)@,
                final(self)@,
                r,
                image,
                title_view(outline),
                chosen_config(page_config, old(self)@.default_config),
            ),
    {
        if self.current_page >= self.total_pages {
            return Err(Error::PageOverflow);
        }
        let cfg = match page_config {
            Some(c) => c,
            None => self.default_page_config,
        };
        let (width, height) = image_dimensions(&image);
        let data = match encode_image(&image, cfg.quality, cfg.compress) {
            Ok(data) => data,
            Err(e) => return Err(e),
        };
        let r = self.add_page_encoded(width, height, data, outline, Some(cfg));
        proof {
            assert(r is Ok);
        }
        r
    }

    /// Adds a page holding `image`: it is shrunk to the usable area of the
    /// page when it exceeds it (see `preprocess`), then written as
    /// `add_page_prepared` writes it. On any error nothing is written.
    pub fn add_page_from_image(
        &mut self,
        image: image::DynamicImage,
        outline: Option<String>,
        page_config: Option<PageConfig>,
    ) -> (r: Result<(), Error>)
        requires
            old(self).wf(),
        ensures
            final(self).wf(),
            old(self)@.current_page >= old(self)@.total_pages ==> r is Err && r->Err_0 is PageOverflow
                && final(self)@ == old(self)@,
            old(self)@.current_page < old(self)@.total_pages ==> exists|pre: image::DynamicImage|
                {
                    &&& preprocessed(image, pre, chosen_config(page_config, old(self)@.default_config))
                    &&& has_room(chosen_config(page_config, old(self)@.default_config))
                        ==> spec_resize_target(
                        dims_of(pre).0,
                        dims_of(pre).1,
                        chosen_config(page_config, old(self)@.default_config),
                    ) is None
                    &&& #[trigger] prepared_outcome(
                        old(self)@,
                        final(self)@,
                        r,
                        pre,
                        title_view(outline),
                        chosen_config(page_config, old(self)@.default_config),
                    )
                },
    {
        if self.current_page >= self.total_pages {
            return Err(Error::PageOverflow);
        }
        let cfg = match page_config {
            Some(c) => c,
            None => self.default_page_config,
        };
        let pre = preprocess(image, &cfg);
        let ghost pre_view = pre;
        let r = self.add_page_prepared(pre, outline, Some(cfg));
        proof {
            assert(prepared_outcome(old(self)@, self@, r, pre_view, title_view(outline), cfg));
        }
        r
    }

    /// Pages written so far.
    pub fn current_page(&self) -> (r: usize)
        ensures
            r == self@.current_page,
    {
        self.current_page
    }

    /// Pages declared when the document was created.
    pub fn total_pages(&self) -> (r: usize)
        ensures
            r == self@.total_pages,
    {
        self.total_pages
    }

    /// Everything written so far.
    pub fn bytes(&self) -> (r: &[u8])
        ensures
            r@ == self@.bytes,
    {
        self.out.as_slice()
    }
}

} // verus!
