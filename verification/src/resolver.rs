//! Resolution of symbol names against the string-table section that each
//! symbol-table section links to.

use vstd::prelude::*;
use crate::elf::{
    ElfError, Section, SHT_STRTAB, SHT_SYMTAB, parse_header, parse_sections, section_in_image,
    sections_of, sections_in_bounds, structurally_valid, valid_magic,
};
use crate::le::{u32_le, read_u32_le};

verus! {

/// The outcome of resolving one symbol entry, or of looking for one group's
/// string table.
#[derive(Debug, PartialEq, Eq)]
pub enum Resolution {
    /// The name bytes at `offset` of string table `table_index` decoded as text.
    Resolved { table_index: u32, offset: u32, text: String },
    /// The name bytes were found but are not UTF-8; they are surfaced raw.
    NonUtf8 { table_index: u32, offset: u32, bytes: Vec<u8> },
    /// The name offset does not fall inside the linked string table.
    OffsetOutOfRange { table_index: u32, offset: u32 },
    /// The linked index names no string-table section within the image.
    MissingStringTable { table_index: u32 },
}

/// The mathematical value of a `Resolution`.
pub enum ResolutionModel {
    Resolved { table_index: u32, offset: u32, text: Seq<char> },
    NonUtf8 { table_index: u32, offset: u32, bytes: Seq<u8> },
    OffsetOutOfRange { table_index: u32, offset: u32 },
    MissingStringTable { table_index: u32 },
}

impl View for Resolution {
    type V = ResolutionModel;

    open spec fn view(&self) -> ResolutionModel {
        match self {
            Resolution::Resolved { table_index, offset, text } => ResolutionModel::Resolved {
                table_index: *table_index,
                offset: *offset,
                text: text@,
            },
            Resolution::NonUtf8 { table_index, offset, bytes } => ResolutionModel::NonUtf8 {
                table_index: *table_index,
                offset: *offset,
                bytes: bytes@,
            },
            Resolution::OffsetOutOfRange { table_index, offset } => (
            ResolutionModel::OffsetOutOfRange { table_index: *table_index, offset: *offset }),
            Resolution::MissingStringTable { table_index } => (
            ResolutionModel::MissingStringTable { table_index: *table_index }),
        }
    }
}

/// The views of a sequence of resolutions.
pub open spec fn views_of(s: Seq<Resolution>) -> Seq<ResolutionModel> {
    s.map_values(|r: Resolution| r@)
}

/// How a byte sequence decodes as UTF-8 text, if it does.
pub uninterp spec fn utf8_decode(bytes: Seq<u8>) -> Option<Seq<char>>;

/// Relies on core::str::from_utf8: whether, and as which characters, a byte
/// sequence decodes as UTF-8 text depends on the bytes alone.
#[verifier::external_body]
fn try_str_from_utf8(bytes: &Vec<u8>) -> (r: Option<&str>)
    ensures
        r is Some <==> utf8_decode(bytes@) is Some,
        r matches Some(s) ==> Some(s@) == utf8_decode(bytes@),
{
    core::str::from_utf8(bytes.as_slice()).ok()
}

/// Position of the first nul byte at or after `off`, or the table's length if
/// there is none.
pub open spec fn first_nul(t: Seq<u8>, off: int) -> int
    decreases t.len() - off,
{
    if off < 0 || off >= t.len() {
        t.len() as int
    } else if t[off] == 0 {
        off
    } else {
        first_nul(t, off + 1)
    }
}

/// The name stored at `off`: the bytes up to, and not including, the first nul
/// at or after `off`.
pub open spec fn name_bytes(t: Seq<u8>, off: int) -> Seq<u8> {
    t.subrange(off, first_nul(t, off))
}

/// The outcome of looking offset `off` up in the string table whose contents
/// are `t` and whose section index is `table_index`.
pub open spec fn lookup_name(t: Seq<u8>, table_index: u32, off: u32) -> ResolutionModel {
    if off >= t.len() {
        ResolutionModel::OffsetOutOfRange { table_index, offset: off }
    } else {
        let bytes = name_bytes(t, off as int);
        match utf8_decode(bytes) {
            Some(text) => ResolutionModel::Resolved { table_index, offset: off, text },
            None => ResolutionModel::NonUtf8 { table_index, offset: off, bytes },
        }
    }
}

/// The contents of section `s` within image `b`.
pub open spec fn table_bytes(b: Seq<u8>, s: Section) -> Seq<u8> {
    b.subrange(s.offset as int, s.offset + s.size)
}

/// The linked index names a string-table section that lies within the image.
pub open spec fn link_ok(b: Seq<u8>, secs: Seq<Section>, link: u32) -> bool {
    &&& link < secs.len()
    &&& secs[link as int].sh_type == SHT_STRTAB
    &&& section_in_image(secs[link as int], b.len() as int)
}

/// Number of symbol entries held by a symbol-table section.
pub open spec fn sym_count(s: Section) -> int {
    s.size as int / 24
}

/// The name-offset field of the `j`-th symbol entry of section `s`.
pub open spec fn entry_name_offset(b: Seq<u8>, s: Section, j: int) -> u32 {
    u32_le(b, s.offset + 24 * j) as u32
}

/// Outcomes of the first `m` symbol entries of symbol-table section `s`,
/// resolved against the string table `s.link` names.
pub open spec fn group_prefix(b: Seq<u8>, secs: Seq<Section>, s: Section, m: int) -> Seq<
    ResolutionModel,
>
    decreases m,
{
    if m <= 0 {
        Seq::empty()
    } else {
        group_prefix(b, secs, s, m - 1).push(
            lookup_name(
                table_bytes(b, secs[s.link as int]),
                s.link,
                entry_name_offset(b, s, m - 1),
            ),
        )
    }
}

/// Everything one section contributes to the pass: nothing unless it is a
/// symbol table; one missing-table report if its link is unusable; otherwise
/// one outcome per symbol entry.
pub open spec fn section_outcomes(b: Seq<u8>, secs: Seq<Section>, s: Section) -> Seq<
    ResolutionModel,
> {
    if s.sh_type != SHT_SYMTAB {
        Seq::empty()
    } else if !link_ok(b, secs, s.link) {
        seq![ResolutionModel::MissingStringTable { table_index: s.link }]
    } else {
        group_prefix(b, secs, s, sym_count(s))
    }
}

/// Outcomes contributed by the first `n` sections, in section order.
pub open spec fn resolve_prefix(b: Seq<u8>, secs: Seq<Section>, n: int) -> Seq<ResolutionModel>
    decreases n,
{
    if n <= 0 {
        Seq::empty()
    } else {
        resolve_prefix(b, secs, n - 1) + section_outcomes(b, secs, secs[n - 1])
    }
}

/// The full resolution pass over a structurally valid image.
pub open spec fn spec_resolve(b: Seq<u8>) -> Seq<ResolutionModel> {
    spec_resolve_at(b, sections_of(b).len() as int)
}

/// The resolution pass cut off after the first `n` sections.
pub open spec fn spec_resolve_at(b: Seq<u8>, n: int) -> Seq<ResolutionModel> {
    resolve_prefix(b, sections_of(b), n)
}

/// Copies the bytes of `src` in `[a, b)` into a fresh buffer.
pub fn copy_range(src: &Vec<u8>, a: usize, b: usize) -> (r: Vec<u8>)
    requires
        a <= b <= src.len(),
    ensures
        r@ == src@.subrange(a as int, b as int),
{
    let mut out: Vec<u8> = Vec::new();
    for k in a..b
        invariant
            a <= b <= src.len(),
            out@.len() == k - a,
            forall|m: int| 0 <= m < out@.len() ==> out@[m] == src@[a + m],
    {
        out.push(src[k]);
    }
    proof {
        assert(out@ =~= src@.subrange(a as int, b as int));
    }
    out
}

/// Scans for the first nul byte at or after `off`.
pub fn find_nul(t: &Vec<u8>, off: usize) -> (r: usize)
    requires
        off <= t.len(),
    ensures
        r == first_nul(t@, off as int),
        off <= r <= t.len(),
{
    let mut k = off;
    while k < t.len()
        invariant
            off <= k <= t.len(),
            first_nul(t@, off as int) == first_nul(t@, k as int),
        decreases t.len() - k,
    {
        if t[k] == 0 {
            return k;
        }
        k += 1;
    }
    k
}

/// Resolves one name offset against the raw contents of a string table.
pub fn lookup_in_table(tbl: &Vec<u8>, table_index: u32, off: u32) -> (r: Resolution)
    ensures
        r@ == lookup_name(tbl@, table_index, off),
{
    if off as usize >= tbl.len() {
        return Resolution::OffsetOutOfRange { table_index, offset: off };
    }
    let end = find_nul(tbl, off as usize);
    let bytes = copy_range(tbl, off as usize, end);
    match try_str_from_utf8(&bytes) {
        Some(s) => Resolution::Resolved { table_index, offset: off, text: s.to_owned() },
        None => Resolution::NonUtf8 { table_index, offset: off, bytes },
    }
}

proof fn lemma_views_push(s: Seq<Resolution>, x: Resolution)
    ensures
        views_of(s.push(x)) == views_of(s).push(x@),
{
    assert(views_of(s.push(x)) =~= views_of(s).push(x@));
}

/// Resolves every symbol entry of every symbol-table section against the
/// string table its section links to, preserving section-then-entry order.
pub fn resolve_symbol_names(image: &Vec<u8>) -> (r: Result<Vec<Resolution>, ElfError>)
    ensures
        match r {
            Ok(v) => structurally_valid(image@) && views_of(v@) == spec_resolve(image@),
            Err(e) => !structurally_valid(image@) && e == ElfError::MalformedHeader,
        },
{
    let h = match parse_header(image) {
        Ok(h) => h,
        Err(e) => {
            return Err(e);
        },
    };
    let secs = parse_sections(image, h);
    let n = secs.len();
    let img_len = image.len();
    let mut out: Vec<Resolution> = Vec::new();
    for i in 0..n
        invariant
            secs@ == sections_of(image@),
            valid_magic(image@),
            sections_in_bounds(image@),
            n == secs@.len(),
            img_len == image.len(),
            views_of(out@) == spec_resolve_at(image@, i as int),
            forall|k: int|
                0 <= k < i && (#[trigger] sections_of(image@)[k]).sh_type == SHT_SYMTAB
                    ==> section_in_image(sections_of(image@)[k], image@.len() as int),
    {
        let s = secs[i];
        if s.sh_type == SHT_SYMTAB {
            if s.offset > u64::MAX - s.size || s.offset + s.size > img_len as u64 {
                proof {
                    assert(sections_of(image@)[i as int] == s);
                    assert(!section_in_image(s, image@.len() as int));
                }
                return Err(ElfError::MalformedHeader);
            }
            let link = s.link;
            let link_usable = (link as usize) < n && {
                let t = secs[link as usize];
                t.sh_type == SHT_STRTAB && t.offset <= u64::MAX - t.size && t.offset + t.size
                    <= img_len as u64
            };
            proof {
                assert(link_usable == link_ok(image@, secs@, link));
            }
            if !link_usable {
                let ghost prev = out@;
                out.push(Resolution::MissingStringTable { table_index: link });
                proof {
                    lemma_views_push(prev, Resolution::MissingStringTable { table_index: link });
                    assert(views_of(out@) =~= spec_resolve_at(image@, i as int)
                        + section_outcomes(image@, secs@, s));
                }
            } else {
                let t = secs[link as usize];
                let tbl = copy_range(image, t.offset as usize, (t.offset + t.size) as usize);
                proof {
                    assert(tbl@ == table_bytes(image@, secs@[link as int]));
                    assert(s.size as int / 24 <= s.size as int) by (nonlinear_arith);
                    assert(24 * (s.size as int / 24) <= s.size as int) by (nonlinear_arith);
                }
                let count = (s.size / 24) as usize;
                for j in 0..count
                    invariant
                        secs@ == sections_of(image@),
                        s == secs@[i as int],
                        s.sh_type == SHT_SYMTAB,
                        i < n == secs@.len(),
                        img_len == image.len(),
                        link == s.link,
                        link_ok(image@, secs@, link),
                        tbl@ == table_bytes(image@, secs@[link as int]),
                        s.offset + s.size <= img_len,
                        count == sym_count(s),
                        24 * count <= s.size,
                        views_of(out@) == spec_resolve_at(image@, i as int) + group_prefix(
                            image@,
                            secs@,
                            s,
                            j as int,
                        ),
                {
                    assert(24 * j + 4 <= 24 * count);
                    let base = (s.offset as usize) + 24 * j;
                    let off = read_u32_le(image, base);
                    let res = lookup_in_table(&tbl, link, off);
                    proof {
                        assert(off == entry_name_offset(image@, s, j as int));
                    }
                    let ghost prev = out@;
                    out.push(res);
                    proof {
                        lemma_views_push(prev, res);
                        assert(group_prefix(image@, secs@, s, j as int + 1) == group_prefix(
                            image@,
                            secs@,
                            s,
                            j as int,
                        ).push(
                            lookup_name(
                                table_bytes(image@, secs@[s.link as int]),
                                s.link,
                                entry_name_offset(image@, s, j as int),
                            ),
                        ));
                        assert(views_of(out@) =~= spec_resolve_at(image@, i as int) + group_prefix(
                            image@,
                            secs@,
                            s,
                            j as int + 1,
                        ));
                    }
                }
                proof {
                    assert(views_of(out@) == spec_resolve_at(image@, i as int) + section_outcomes(
                        image@,
                        secs@,
                        s,
                    ));
                }
            }
        } else {
            proof {
                assert(views_of(out@) =~= spec_resolve_at(image@, i as int) + section_outcomes(
                    image@,
                    secs@,
                    s,
                ));
            }
        }
        proof {
            assert(sections_of(image@)[i as int] == s);
            assert(spec_resolve_at(image@, i as int + 1) == spec_resolve_at(image@, i as int)
                + section_outcomes(image@, secs@, s));
        }
    }
    proof {
        assert(structurally_valid(image@));
    }
    Ok(out)
}

/// What each outcome of a pass promises about the table it was answered from.
pub open spec fn outcome_wf(b: Seq<u8>, secs: Seq<Section>, o: ResolutionModel) -> bool {
    match o {
        ResolutionModel::Resolved { table_index, offset, text } => {
            &&& link_ok(b, secs, table_index)
            &&& (offset as int) < secs[table_index as int].size
            &&& Some(text) == utf8_decode(
                name_bytes(table_bytes(b, secs[table_index as int]), offset as int),
            )
        },
        ResolutionModel::NonUtf8 { table_index, offset, bytes } => {
            &&& link_ok(b, secs, table_index)
            &&& (offset as int) < secs[table_index as int].size
            &&& bytes == name_bytes(table_bytes(b, secs[table_index as int]), offset as int)
            &&& utf8_decode(bytes) is None
        },
        ResolutionModel::OffsetOutOfRange { table_index, offset } => {
            &&& link_ok(b, secs, table_index)
            &&& offset >= secs[table_index as int].size
        },
        ResolutionModel::MissingStringTable { table_index } => !link_ok(b, secs, table_index),
    }
}

proof fn lemma_group_prefix_len(b: Seq<u8>, secs: Seq<Section>, s: Section, m: int)
    ensures
        group_prefix(b, secs, s, m).len() == if m <= 0 { 0int } else { m },
    decreases m,
{
    if m > 0 {
        lemma_group_prefix_len(b, secs, s, m - 1);
    }
}

proof fn lemma_group_prefix_index(b: Seq<u8>, secs: Seq<Section>, s: Section, m: int, k: int)
    requires
        0 <= k < m,
    ensures
        group_prefix(b, secs, s, m)[k] == lookup_name(
            table_bytes(b, secs[s.link as int]),
            s.link,
            entry_name_offset(b, s, k),
        ),
    decreases m,
{
    lemma_group_prefix_len(b, secs, s, m - 1);
    if k < m - 1 {
        lemma_group_prefix_index(b, secs, s, m - 1, k);
    }
}

proof fn lemma_lookup_wf(b: Seq<u8>, secs: Seq<Section>, link: u32, off: u32)
    requires
        link_ok(b, secs, link),
    ensures
        outcome_wf(b, secs, lookup_name(table_bytes(b, secs[link as int]), link, off)),
{
    assert(table_bytes(b, secs[link as int]).len() == secs[link as int].size);
}

proof fn lemma_section_outcomes_wf(b: Seq<u8>, secs: Seq<Section>, s: Section, k: int)
    requires
        0 <= k < section_outcomes(b, secs, s).len(),
    ensures
        outcome_wf(b, secs, section_outcomes(b, secs, s)[k]),
{
    if s.sh_type == SHT_SYMTAB && link_ok(b, secs, s.link) {
        lemma_group_prefix_len(b, secs, s, sym_count(s));
        lemma_group_prefix_index(b, secs, s, sym_count(s), k);
        lemma_lookup_wf(b, secs, s.link, entry_name_offset(b, s, k));
    }
}

proof fn lemma_resolve_prefix_wf(b: Seq<u8>, secs: Seq<Section>, n: int, k: int)
    requires
        0 <= k < resolve_prefix(b, secs, n).len(),
    ensures
        outcome_wf(b, secs, resolve_prefix(b, secs, n)[k]),
    decreases n,
{
    if n > 0 {
        let pre = resolve_prefix(b, secs, n - 1);
        if k < pre.len() {
            lemma_resolve_prefix_wf(b, secs, n - 1, k);
        } else {
            lemma_section_outcomes_wf(b, secs, secs[n - 1], k - pre.len());
        }
    }
}

/// Every outcome of a resolution pass is answered by the string table that the
/// symbol's own section links to: a resolved or raw name's offset falls inside
/// that very table and its bytes are read from that table's byte range; an
/// out-of-range report carries an offset at or past that table's length; and a
/// missing-table report names an index at which no usable string table stands.
pub proof fn lemma_resolution_outcomes_wf(b: Seq<u8>, k: int)
    requires
        0 <= k < spec_resolve(b).len(),
    ensures
        outcome_wf(b, sections_of(b), spec_resolve(b)[k]),
{
    lemma_resolve_prefix_wf(b, sections_of(b), sections_of(b).len() as int, k);
}

proof fn lemma_group_prefix_same(b1: Seq<u8>, b2: Seq<u8>, secs: Seq<Section>, s: Section, m: int)
    requires
        b1.len() == b2.len(),
        section_in_image(s, b1.len() as int),
        table_bytes(b1, s) == table_bytes(b2, s),
        link_ok(b1, secs, s.link),
        table_bytes(b1, secs[s.link as int]) == table_bytes(b2, secs[s.link as int]),
        0 <= m <= sym_count(s),
    ensures
        group_prefix(b1, secs, s, m) == group_prefix(b2, secs, s, m),
    decreases m,
{
    if m > 0 {
        lemma_group_prefix_same(b1, b2, secs, s, m - 1);
        assert(24 * sym_count(s) <= s.size as int) by (nonlinear_arith);
        assert(24 * m <= 24 * sym_count(s)) by (nonlinear_arith)
            requires m <= sym_count(s),
        ;
        let base = s.offset + 24 * (m - 1);
        assert(b1[base] == b2[base]) by {
            assert(b1[base] == table_bytes(b1, s)[24 * (m - 1)]);
            assert(b2[base] == table_bytes(b2, s)[24 * (m - 1)]);
        }
        assert(b1[base + 1] == b2[base + 1]) by {
            assert(b1[base + 1] == table_bytes(b1, s)[24 * (m - 1) + 1]);
            assert(b2[base + 1] == table_bytes(b2, s)[24 * (m - 1) + 1]);
        }
        assert(b1[base + 2] == b2[base + 2]) by {
            assert(b1[base + 2] == table_bytes(b1, s)[24 * (m - 1) + 2]);
            assert(b2[base + 2] == table_bytes(b2, s)[24 * (m - 1) + 2]);
        }
        assert(b1[base + 3] == b2[base + 3]) by {
            assert(b1[base + 3] == table_bytes(b1, s)[24 * (m - 1) + 3]);
            assert(b2[base + 3] == table_bytes(b2, s)[24 * (m - 1) + 3]);
        }
        assert(entry_name_offset(b1, s, m - 1) == entry_name_offset(b2, s, m - 1));
    }
}

/// Symbols are never answered from a string table other than the one their
/// section links to: two images of the same length, agreeing on a symbol-table
/// section's own bytes and on its linked string table's bytes, give that
/// section the same outcomes, whatever their remaining bytes — any other
/// string table included — hold.
pub proof fn lemma_section_outcomes_use_linked_table_only(
    b1: Seq<u8>,
    b2: Seq<u8>,
    secs: Seq<Section>,
    s: Section,
)
    requires
        b1.len() == b2.len(),
        s.sh_type == SHT_SYMTAB,
        section_in_image(s, b1.len() as int),
        table_bytes(b1, s) == table_bytes(b2, s),
        link_ok(b1, secs, s.link) ==> table_bytes(b1, secs[s.link as int]) == table_bytes(
            b2,
            secs[s.link as int],
        ),
    ensures
        section_outcomes(b1, secs, s) == section_outcomes(b2, secs, s),
{
    assert(link_ok(b1, secs, s.link) == link_ok(b2, secs, s.link));
    if link_ok(b1, secs, s.link) {
        lemma_group_prefix_same(b1, b2, secs, s, sym_count(s));
    }
}

/// An offset equal to the table's length is reported out of range, never
/// resolved to a name (not even the empty one).
pub proof fn lemma_offset_at_table_end(t: Seq<u8>, table_index: u32, off: u32)
    requires
        off == t.len(),
    ensures
        lookup_name(t, table_index, off) == (ResolutionModel::OffsetOutOfRange {
            table_index,
            offset: off,
        }),
{
}

proof fn lemma_first_nul_terminated(t: Seq<u8>, off: int, end: int)
    requires
        0 <= off <= end < t.len(),
        forall|m: int| off <= m < end ==> t[m] != 0,
        t[end] == 0,
    ensures
        first_nul(t, off) == end,
    decreases end - off,
{
    if off < end {
        assert(t[off] != 0);
        lemma_first_nul_terminated(t, off + 1, end);
    }
}

/// Round trip: a name written at offset `off` of a string table, free of nul
/// bytes and followed by one, is read back as exactly the bytes written; it
/// resolves to their text when they are UTF-8 and to the raw bytes when not.
pub proof fn lemma_name_round_trip(t: Seq<u8>, table_index: u32, off: u32, name: Seq<u8>)
    requires
        off + name.len() < t.len(),
        forall|i: int| 0 <= i < name.len() ==> name[i] != 0,
        t.subrange(off as int, off + name.len()) == name,
        t[off + name.len()] == 0,
    ensures
        name_bytes(t, off as int) == name,
        match utf8_decode(name) {
            Some(text) => lookup_name(t, table_index, off) == (ResolutionModel::Resolved {
                table_index,
                offset: off,
                text,
            }),
            None => lookup_name(t, table_index, off) == (ResolutionModel::NonUtf8 {
                table_index,
                offset: off,
                bytes: name,
            }),
        },
{
    assert(forall|m: int|
        off <= m < off + name.len() ==> t[m] == name[m - off] && #[trigger] t[m] != 0);
    lemma_first_nul_terminated(t, off as int, off + name.len());
}

} // verus!
