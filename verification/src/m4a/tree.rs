//! An MP4 file that was rewritten is read back with the tags that were
//! written, if its atoms up to the list of tags are whole and nested as
//! their sizes say.
use vstd::prelude::*;
use crate::m4a::atom_name;
use crate::m4a::atom_size;
use crate::m4a::atom_rewritten;
use crate::m4a::atoms_rewritten;
use crate::m4a::RewriteView;
use crate::store::avail;
use crate::store::read_filled;
use crate::store::seek_target;
use crate::m4a::compilation_atom;
use crate::m4a::cover_atom;
use crate::m4a::date_atom;
use crate::m4a::entries_patched;
use crate::m4a::list_found;
use crate::m4a::m4a_rewritten;
use crate::m4a::m4a_tags;
use crate::m4a::roundtrip::storable;
use crate::m4a::list_read;
use crate::m4a::offsets_held;
use crate::m4a::offsets_patched;
use crate::m4a::pair_atom;
use crate::m4a::tempo_atom;
use crate::m4a::text_atom;
use crate::m4a::list_atoms;
use crate::m4a::list_rewritten;
use crate::m4a::name_atoms;
use crate::m4a::number_atoms;
use crate::m4a::opt_patched;
use crate::m4a::patched;
use crate::m4a::sort_atoms;
use crate::tools::tags::delta_view;
use crate::types::tags::TagsView;
use crate::ErrorView;

verus! {

/// The header of the atom at `pos`.
pub open spec fn header_at(data: Seq<u8>, pos: int) -> Seq<u8> {
    data.subrange(pos, pos + 8)
}

/// Whether rewriting goes into an atom of the name without copying its content.
pub open spec fn is_entered(name: Seq<char>) -> bool {
    name == "moov"@ || name == "trak"@ || name == "mdia"@ || name == "minf"@ || name == "stbl"@
        || name == "udta"@
}

/// Whether reading skips an atom of the name that rewriting goes into.
pub open spec fn is_track_part(name: Seq<char>) -> bool {
    name == "trak"@ || name == "mdia"@ || name == "minf"@ || name == "stbl"@
}

/// Where rewriting stands after the atom at `pos`, which is neither the
/// list of tags nor the media data: behind its header if it goes into the
/// atom, behind four more bytes for `meta`, else behind the atom.
pub open spec fn next_pos(data: Seq<u8>, pos: int) -> int {
    let name = atom_name(header_at(data, pos));
    if is_entered(name) {
        pos + 8
    } else if name == "meta"@ {
        pos + 12
    } else {
        pos + atom_size(header_at(data, pos))
    }
}

/// Whether the atom at `pos` is one that rewriting passes whole before
/// `end`: it is neither the list of tags nor the media data, and its size
/// is not smaller than its header.
pub open spec fn passes(data: Seq<u8>, pos: int, end: int) -> bool {
    let name = atom_name(header_at(data, pos));
    let size = atom_size(header_at(data, pos));
    &&& 0 <= pos
    &&& pos + 8 <= end
    &&& end <= data.len()
    &&& name != "ilst"@
    &&& name != "mdat"@
    &&& !(1 < size < 8)
    &&& (!is_entered(name) && name != "meta"@ ==> size >= 8)
    &&& pos < next_pos(data, pos) <= end
}

/// Whether rewriting, from `pos` on, passes whole atoms and then stands at `end`.
pub open spec fn flat(data: Seq<u8>, pos: int, end: int) -> bool
    decreases
            (if pos < end {
                end - pos
            } else {
                0
            }),
{
    pos == end || (passes(data, pos, end) && flat(data, next_pos(data, pos), end))
}

/// Whether reading, from `pos` on, passes the same atoms as rewriting and
/// then stands at `end`: the atoms that reading skips and rewriting goes
/// into hold whole atoms up to their end.
pub open spec fn joint(data: Seq<u8>, pos: int, end: int) -> bool
    decreases
            (if pos < end {
                end - pos
            } else {
                0
            }),
{
    pos == end || (passes(data, pos, end) && {
        let name = atom_name(header_at(data, pos));
        let size = atom_size(header_at(data, pos));
        if is_track_part(name) {
            size >= 8 && pos + size <= end && flat(data, pos + 8, pos + size) && joint(
                data,
                pos + size,
                end,
            )
        } else {
            joint(data, next_pos(data, pos), end)
        }
    })
}

/// Whole atoms up to `mid` and whole atoms from there up to `end` are
/// whole atoms up to `end`.
pub proof fn lemma_flat_joined(data: Seq<u8>, pos: int, mid: int, end: int)
    requires
        flat(data, pos, mid),
        flat(data, mid, end),
        pos <= mid <= end,
        end <= data.len(),
    ensures
        flat(data, pos, end),
    decreases mid - pos,
{
    if pos < mid {
        lemma_flat_joined(data, next_pos(data, pos), mid, end);
    }
}

/// Rewriting that comes to `mid` and to `end` comes from `mid` to `end`.
pub proof fn lemma_flat_split(data: Seq<u8>, pos: int, mid: int, end: int)
    requires
        flat(data, pos, mid),
        flat(data, pos, end),
        pos <= mid <= end,
    ensures
        flat(data, mid, end),
    decreases mid - pos,
{
    if pos < mid {
        lemma_flat_split(data, next_pos(data, pos), mid, end);
    }
}

/// What reading passes, rewriting passes.
pub proof fn lemma_joint_flat(data: Seq<u8>, pos: int, end: int)
    requires
        joint(data, pos, end),
        pos <= end,
    ensures
        flat(data, pos, end),
    decreases end - pos,
{
    if pos < end {
        let name = atom_name(header_at(data, pos));
        let size = atom_size(header_at(data, pos));
        if is_track_part(name) {
            lemma_joint_flat(data, pos + size, end);
            lemma_flat_joined(data, pos + 8, pos + size, end);
        } else {
            lemma_joint_flat(data, next_pos(data, pos), end);
        }
    }
}

/// Two atoms that rewriting comes to stand apart: the second stands behind
/// the header of the first, and behind the first altogether if rewriting
/// does not go into it.
pub proof fn lemma_apart(data: Seq<u8>, first: int, second: int, end: int)
    requires
        flat(data, 0, first),
        flat(data, 0, second),
        flat(data, 0, end),
        0 <= first < second <= end,
    ensures
        first + 8 <= second,
        next_pos(data, first) <= second,
        passes(data, first, second),
{
    lemma_flat_split(data, 0, first, second);
}

/// Whether the atom that was remembered at `at` is one of the name `name`
/// that rewriting came to, with its header before `pos`.
pub open spec fn remembered(data: Seq<u8>, at: Option<usize>, name: Seq<char>, pos: int) -> bool {
    match at {
        Some(x) => flat(data, 0, x as int) && x + 8 <= pos && atom_name(header_at(data, x as int))
            == name,
        None => true,
    }
}

/// Whether what rewriting holds at `pos` is the file up to there, as it
/// was, with the atoms remembered that it came to.
pub open spec fn verbatim(data: Seq<u8>, st: RewriteView, pos: int) -> bool {
    &&& 0 <= pos <= data.len()
    &&& pos <= usize::MAX
    &&& st.out == data.subrange(0, pos)
    &&& flat(data, 0, pos)
    &&& remembered(data, st.moov, "moov"@, pos)
    &&& remembered(data, st.udta, "udta"@, pos)
    &&& remembered(data, st.meta, "meta"@, pos)
    &&& remembered(data, st.stco, "stco"@, pos)
    &&& (st.stco is Some ==> atom_size(header_at(data, st.stco->0 as int)) >= 8
        && st.stco->0 + atom_size(header_at(data, st.stco->0 as int)) <= pos)
}

/// Whether an atom that is remembered later is the one that was remembered
/// before, or stands at `pos` or behind it.
pub open spec fn kept_or_later(before: Option<usize>, after: Option<usize>, pos: int) -> bool {
    after == before || (after is Some && after->0 >= pos)
}

/// What rewriting holds after it passed whole atoms from `pos` to `end`.
pub open spec fn walked(data: Seq<u8>, pos: int, end: int, st: RewriteView) -> RewriteView
    decreases
            (if pos < end {
                end - pos
            } else {
                0
            }),
{
    if pos >= end || next_pos(data, pos) <= pos {
        st
    } else {
        match atom_rewritten(data, pos, header_at(data, pos), st, TagsView::none()) {
            Ok((next, _)) => walked(data, next_pos(data, pos), end, next),
            Err(_) => st,
        }
    }
}

/// Rewriting passes one whole atom: it keeps the atom as it is.
pub proof fn lemma_atom_passed(data: Seq<u8>, pos: int, end: int, st: RewriteView, new: TagsView)
    requires
        passes(data, pos, end),
        verbatim(data, st, pos),
        end <= usize::MAX,
    ensures
        atom_rewritten(data, pos, header_at(data, pos), st, new) == atom_rewritten(
            data,
            pos,
            header_at(data, pos),
            st,
            TagsView::none(),
        ),
        atom_rewritten(data, pos, header_at(data, pos), st, new) is Ok,
        atom_rewritten(data, pos, header_at(data, pos), st, new)->Ok_0.1 == next_pos(data, pos),
        verbatim(
            data,
            atom_rewritten(data, pos, header_at(data, pos), st, new)->Ok_0.0,
            next_pos(data, pos),
        ),
        kept_or_later(
            st.moov,
            atom_rewritten(data, pos, header_at(data, pos), st, new)->Ok_0.0.moov,
            pos,
        ),
        kept_or_later(
            st.udta,
            atom_rewritten(data, pos, header_at(data, pos), st, new)->Ok_0.0.udta,
            pos,
        ),
        kept_or_later(
            st.meta,
            atom_rewritten(data, pos, header_at(data, pos), st, new)->Ok_0.0.meta,
            pos,
        ),
        kept_or_later(
            st.stco,
            atom_rewritten(data, pos, header_at(data, pos), st, new)->Ok_0.0.stco,
            pos,
        ),
{
    let header = header_at(data, pos);
    let name = atom_name(header);
    let size = atom_size(header);
    let next = next_pos(data, pos);
    let r = atom_rewritten(data, pos, header, st, new)->Ok_0;
    assert(st.out.len() == pos);
    assert(st.out.len() as usize == pos);
    assert(r.0.out =~= data.subrange(0, next));
    assert(flat(data, next, next));
    assert(passes(data, pos, next));
    assert(flat(data, pos, next));
    lemma_flat_joined(data, 0, pos, next);
}

/// Rewriting passes whole atoms: it keeps them as they are, and goes on
/// behind them.
pub proof fn lemma_walked(data: Seq<u8>, pos: int, end: int, st: RewriteView, new: TagsView)
    requires
        flat(data, pos, end),
        pos <= end,
        verbatim(data, st, pos),
        end <= usize::MAX,
        end + 8 <= data.len(),
    ensures
        atoms_rewritten(data, pos, st, new) == atoms_rewritten(
            data,
            end,
            walked(data, pos, end, st),
            new,
        ),
        verbatim(data, walked(data, pos, end, st), end),
        kept_or_later(st.moov, walked(data, pos, end, st).moov, pos),
        kept_or_later(st.udta, walked(data, pos, end, st).udta, pos),
        kept_or_later(st.meta, walked(data, pos, end, st).meta, pos),
        kept_or_later(st.stco, walked(data, pos, end, st).stco, pos),
    decreases end - pos,
{
    if pos < end {
        lemma_atom_passed(data, pos, end, st, new);
        let next = atom_rewritten(data, pos, header_at(data, pos), st, new)->Ok_0.0;
        lemma_walked(data, next_pos(data, pos), end, next, new);
    } else {
        assert(data.subrange(0, pos) =~= data.subrange(0, end));
    }
}

/// Whether `i` lies in the size of the atom that is remembered at `at`.
pub open spec fn in_size(i: int, at: Option<usize>) -> bool {
    at is Some && at->0 <= i < at->0 + 4
}

/// Whether `out` is `data` before `end`, but for the sizes of the atoms
/// that are remembered and for the bytes from `lo` up to `hi`.
pub open spec fn agrees(
    data: Seq<u8>,
    out: Seq<u8>,
    end: int,
    st: RewriteView,
    lo: int,
    hi: int,
) -> bool {
    out.len() >= end && forall|i: int|
        0 <= i < end ==> #[trigger] out[i] == data[i] || in_size(i, st.moov) || in_size(
            i,
            st.udta,
        ) || in_size(i, st.meta) || lo <= i < hi
}

/// Whether the bytes from `lo` up to `hi` lie within the table of chunk
/// offsets that is remembered, behind its count, or behind `end`.
pub open spec fn offsets_inside(data: Seq<u8>, st: RewriteView, end: int, lo: int,
    hi: int) -> bool {
    lo >= end || hi <= lo || (st.stco is Some && st.stco->0 + 16 <= lo && hi <= st.stco->0
        + atom_size(header_at(data, st.stco->0 as int)))
}

/// Whether the size of the atom that is remembered at `at` is still one of
/// an atom in `out`: not smaller than a header, if it is more than 1.
pub open spec fn size_kept(out: Seq<u8>, at: Option<usize>) -> bool {
    at is Some ==> !(1 < atom_size(header_at(out, at->0 as int)) < 8)
}

/// The atom at `h`, which rewriting came to, is not touched by the sizes of
/// other atoms or by the chunk offsets: its name is as it was, and its size
/// too unless it is one of the atoms that are remembered.
pub proof fn lemma_header_kept(
    data: Seq<u8>,
    out: Seq<u8>,
    end: int,
    st: RewriteView,
    lo: int,
    hi: int,
    h: int,
)
    requires
        verbatim(data, st, end),
        agrees(data, out, end, st, lo, hi),
        offsets_inside(data, st, end, lo, hi),
        flat(data, 0, h),
        passes(data, h, end),
    ensures
        atom_name(header_at(out, h)) == atom_name(header_at(data, h)),
        st.moov != Some(h as usize) && st.udta != Some(h as usize) && st.meta != Some(h as usize)
            ==> atom_size(header_at(out, h)) == atom_size(header_at(data, h)),
{
    let a = header_at(out, h);
    let b = header_at(data, h);
    assert forall|i: int| h <= i < h + 8 && !(in_size(i, st.moov) || in_size(i, st.udta)
        || in_size(i, st.meta)) implies out[i] == data[i] by {
        lemma_names();
        if lo <= i < hi {
            let at = st.stco->0 as int;
            assert(atom_name(header_at(data, at)) == "stco"@);
            if at < h {
                lemma_apart(data, at, h, end);
                assert(next_pos(data, at) == at + atom_size(header_at(data, at)));
            } else if at > h {
                lemma_apart(data, h, at, end);
            }
            assert(false);
        }
        assert(0 <= i < end);
    }
    assert forall|i: int| h + 4 <= i < h + 8 implies !(in_size(i, st.moov) || in_size(i, st.udta)
        || in_size(i, st.meta)) by {
        lemma_not_in_size(data, end, st.moov, "moov"@, h, i);
        lemma_not_in_size(data, end, st.udta, "udta"@, h, i);
        lemma_not_in_size(data, end, st.meta, "meta"@, h, i);
    }
    assert(a.subrange(4, 8) =~= b.subrange(4, 8)) by {
        assert forall|k: int| 4 <= k < 8 implies #[trigger] a[k] == b[k] by {
            assert(out[h + k] == data[h + k]);
        }
    }
    if st.moov != Some(h as usize) && st.udta != Some(h as usize) && st.meta != Some(h as usize) {
        assert forall|i: int| h <= i < h + 4 implies !(in_size(i, st.moov) || in_size(i, st.udta)
            || in_size(i, st.meta)) by {
            lemma_not_in_size(data, end, st.moov, "moov"@, h, i);
            lemma_not_in_size(data, end, st.udta, "udta"@, h, i);
            lemma_not_in_size(data, end, st.meta, "meta"@, h, i);
        }
        assert(a.subrange(0, 4) =~= b.subrange(0, 4)) by {
            assert forall|k: int| 0 <= k < 4 implies #[trigger] a[k] == b[k] by {
                assert(out[h + k] == data[h + k]);
            }
        }
    }
}

/// The size of an atom that is remembered does not reach into another atom
/// that rewriting came to.
pub proof fn lemma_not_in_size(
    data: Seq<u8>,
    end: int,
    at: Option<usize>,
    name: Seq<char>,
    h: int,
    i: int,
)
    requires
        remembered(data, at, name, end),
        flat(data, 0, end),
        flat(data, 0, h),
        passes(data, h, end),
        h <= i < h + 8,
        at == Some(h as usize) ==> h + 4 <= i,
    ensures
        !in_size(i, at),
{
    if at is Some {
        let x = at->0 as int;
        if x < h {
            lemma_apart(data, x, h, end);
        } else if x > h {
            lemma_apart(data, h, x, end);
        }
    }
}

/// Reading the rewritten file passes the atoms that it passed in the file
/// as it was, up to `end`.
pub proof fn lemma_read_passes(
    data: Seq<u8>,
    out: Seq<u8>,
    pos: int,
    end: int,
    st: RewriteView,
    lo: int,
    hi: int,
)
    requires
        joint(data, pos, end),
        flat(data, 0, pos),
        0 <= pos <= end,
        verbatim(data, st, end),
        agrees(data, out, end, st, lo, hi),
        offsets_inside(data, st, end, lo, hi),
        size_kept(out, st.moov),
        size_kept(out, st.udta),
        size_kept(out, st.meta),
        end + 8 <= out.len(),
        out.len() <= u64::MAX,
    ensures
        list_found(out, pos) == list_found(out, end),
    decreases end - pos,
{
    if pos < end {
        let name = atom_name(header_at(data, pos));
        let size = atom_size(header_at(data, pos));
        lemma_header_kept(data, out, end, st, lo, hi, pos);
        lemma_names();
        let next = if is_track_part(name) {
            pos + size
        } else {
            next_pos(data, pos)
        };
        assert(flat(data, pos, next)) by {
            assert(flat(data, next, next));
            if is_track_part(name) {
                assert(passes(data, pos, next));
            } else {
                assert(passes(data, pos, next));
            }
        }
        lemma_flat_joined(data, 0, pos, next);
        if st.moov == Some(pos as usize) || st.udta == Some(pos as usize) || st.meta == Some(
            pos as usize,
        ) {
            assert(name == "moov"@ || name == "udta"@ || name == "meta"@);
        }
        assert(seek_target(pos + 8, 4) == Some((pos + 12) as u64));
        if !(name == "moov"@ || name == "udta"@ || name == "meta"@) {
            assert(seek_target(pos + 8, size - 8) == Some((pos + size) as u64));
        }
        assert(list_found(out, pos) == list_found(out, next));
        lemma_read_passes(data, out, next, end, st, lo, hi);
    }
}

/// The names of the atoms that reading and rewriting know are different names.
pub proof fn lemma_names()
    ensures
        "moov"@ != "udta"@,
        "moov"@ != "meta"@,
        "udta"@ != "meta"@,
        !is_track_part("moov"@),
        !is_track_part("udta"@),
        !is_track_part("meta"@),
        !is_track_part("ilst"@),
        !is_entered("meta"@),
        !is_entered("stco"@),
        !is_entered("ilst"@),
        "stco"@ != "meta"@,
        "ilst"@ != "meta"@,
        "ilst"@ != "moov"@,
        "ilst"@ != "udta"@,
        "ilst"@ != "stco"@,
        "ilst"@ != "mdat"@,
{
    reveal_strlit("mdat");
    assert("mdat"@[0] == 'm' && "mdat"@[1] == 'd');
    reveal_strlit("moov");
    reveal_strlit("udta");
    reveal_strlit("meta");
    reveal_strlit("trak");
    reveal_strlit("mdia");
    reveal_strlit("minf");
    reveal_strlit("stbl");
    reveal_strlit("stco");
    reveal_strlit("ilst");
    assert("moov"@[0] == 'm' && "moov"@[1] == 'o');
    assert("udta"@[0] == 'u');
    assert("meta"@[0] == 'm' && "meta"@[1] == 'e');
    assert("trak"@[0] == 't');
    assert("mdia"@[0] == 'm' && "mdia"@[1] == 'd');
    assert("minf"@[0] == 'm' && "minf"@[1] == 'i');
    assert("stbl"@[0] == 's' && "stbl"@[2] == 'b');
    assert("stco"@[0] == 's' && "stco"@[2] == 'c');
    assert("ilst"@[0] == 'i');
}

/// Three things one after another can be put together from either side.
pub proof fn lemma_joined(a: Seq<u8>, b: Seq<u8>, c: Seq<u8>)
    ensures
        a + b + c == a + (b + c),
{
    assert(a + b + c =~= a + (b + c));
}

/// These atoms behind something are that, and the atoms.
pub proof fn lemma_name_atoms_after(before: Seq<u8>, a: Seq<u8>, t: TagsView)
    ensures
        name_atoms(before + a, t) == before + name_atoms(a, t),
{
    reveal(name_atoms);
    let a0 = a;
    let f1 = text_atom("©nam"@, t.title);
    lemma_joined(before, a0, f1);
    let a1 = a0 + f1;
    let f2 = text_atom("©alb"@, t.album);
    lemma_joined(before, a1, f2);
    let a2 = a1 + f2;
    let f3 = text_atom("©art"@, t.artist);
    lemma_joined(before, a2, f3);
    let a3 = a2 + f3;
    let f4 = text_atom("aART"@, t.album_artist);
    lemma_joined(before, a3, f4);
    let a4 = a3 + f4;
    let f5 = text_atom("©wrt"@, t.composer);
    lemma_joined(before, a4, f5);
    let a5 = a4 + f5;
    let f6 = text_atom("©grp"@, t.grouping);
    lemma_joined(before, a5, f6);
    let a6 = a5 + f6;
    let f7 = text_atom("©gen"@, t.genre);
    lemma_joined(before, a6, f7);
    let a7 = a6 + f7;
}

/// These atoms behind something are that, and the atoms.
pub proof fn lemma_number_atoms_after(before: Seq<u8>, a: Seq<u8>, t: TagsView)
    ensures
        number_atoms(before + a, t) == before + number_atoms(a, t),
{
    reveal(number_atoms);
    let a0 = a;
    let f1 = date_atom(t.date);
    lemma_joined(before, a0, f1);
    let a1 = a0 + f1;
    let f2 = pair_atom("trkn"@, t.track_number, t.track_total);
    lemma_joined(before, a1, f2);
    let a2 = a1 + f2;
    let f3 = pair_atom("disk"@, t.disc_number, t.disc_total);
    lemma_joined(before, a2, f3);
    let a3 = a2 + f3;
    let f4 = tempo_atom(t.bpm);
    lemma_joined(before, a3, f4);
    let a4 = a3 + f4;
    let f5 = compilation_atom(t.is_compilation);
    lemma_joined(before, a4, f5);
    let a5 = a4 + f5;
}

/// These atoms behind something are that, and the atoms.
pub proof fn lemma_sort_atoms_after(before: Seq<u8>, a: Seq<u8>, t: TagsView)
    ensures
        sort_atoms(before + a, t) == before + sort_atoms(a, t),
{
    reveal(sort_atoms);
    let a0 = a;
    let f1 = text_atom("©cmt"@, t.comment);
    lemma_joined(before, a0, f1);
    let a1 = a0 + f1;
    let f2 = text_atom("sonm"@, t.sort_title);
    lemma_joined(before, a1, f2);
    let a2 = a1 + f2;
    let f3 = text_atom("soal"@, t.sort_album);
    lemma_joined(before, a2, f3);
    let a3 = a2 + f3;
    let f4 = text_atom("soar"@, t.sort_artist);
    lemma_joined(before, a3, f4);
    let a4 = a3 + f4;
    let f5 = text_atom("soaa"@, t.sort_album_artist);
    lemma_joined(before, a4, f5);
    let a5 = a4 + f5;
    let f6 = text_atom("soco"@, t.sort_composer);
    lemma_joined(before, a5, f6);
    let a6 = a5 + f6;
    let f7 = cover_atom(t.front_cover);
    lemma_joined(before, a6, f7);
    let a7 = a6 + f7;
}

/// The atoms of tags behind something are that, and the atoms of the tags.
pub proof fn lemma_list_atoms_after(before: Seq<u8>, t: TagsView)
    ensures
        list_atoms(before, t) == before + list_atoms(Seq::empty(), t),
{
    let e = Seq::<u8>::empty();
    assert(before + e =~= before);
    lemma_name_atoms_after(before, e, t);
    let a = name_atoms(e, t);
    lemma_number_atoms_after(before, a, t);
    let b = number_atoms(a, t);
    lemma_sort_atoms_after(before, b, t);
}

/// Whether `out` is `base` before `len`, but for the sizes of the atoms
/// that are remembered in `st`.
pub open spec fn same_but_sizes(base: Seq<u8>, out: Seq<u8>, len: int, st: RewriteView) -> bool {
    out.len() >= len && base.len() >= len && forall|i: int|
        0 <= i < len ==> #[trigger] out[i] == base[i] || in_size(i, st.moov) || in_size(
            i,
            st.udta,
        ) || in_size(i, st.meta)
}

/// Adding to the size of an atom that is remembered changes nothing else.
pub proof fn lemma_opt_patched(out: Seq<u8>, at: Option<usize>, delta: int)
    requires
        at is Some ==> at->0 + 4 <= out.len(),
    ensures
        opt_patched(out, at, delta).len() == out.len(),
        forall|i: int|
            0 <= i < out.len() && !in_size(i, at) ==> #[trigger] opt_patched(out, at, delta)[i]
                == out[i],
{
    if at is Some {
        crate::m4a::roundtrip::lemma_patched(out, at->0 as int, delta);
    }
}

/// What rewriting the list of tags gives: the file up to the list as it
/// was, but for the sizes of the atoms around the list; the header of the
/// list with its new size; and the atoms of the merged tags.
pub proof fn lemma_list_rewritten(
    data: Seq<u8>,
    pos: int,
    st: RewriteView,
    old: TagsView,
    new: TagsView,
)
    requires
        verbatim(data, st, pos),
        pos + 8 <= data.len(),
        atom_name(header_at(data, pos)) == "ilst"@,
        pos + 8 + list_atoms(Seq::empty(), delta_view(old, new)).len() < 0x1_0000_0000,
    ensures
        list_rewritten(st, header_at(data, pos), old, new).out.len() == pos + 8 + list_atoms(
            Seq::empty(),
            delta_view(old, new),
        ).len(),
        same_but_sizes(
            data,
            list_rewritten(st, header_at(data, pos), old, new).out,
            pos,
            st,
        ),
        atom_name(header_at(list_rewritten(st, header_at(data, pos), old, new).out, pos))
            == "ilst"@,
        atom_size(header_at(list_rewritten(st, header_at(data, pos), old, new).out, pos)) == 8
            + list_atoms(Seq::empty(), delta_view(old, new)).len(),
        list_rewritten(st, header_at(data, pos), old, new).out.subrange(
            pos + 8,
            pos + 8 + list_atoms(Seq::empty(), delta_view(old, new)).len() as int,
        ) == list_atoms(Seq::empty(), delta_view(old, new)),
        list_rewritten(st, header_at(data, pos), old, new).moov == st.moov,
        list_rewritten(st, header_at(data, pos), old, new).udta == st.udta,
        list_rewritten(st, header_at(data, pos), old, new).meta == st.meta,
        list_rewritten(st, header_at(data, pos), old, new).stco == st.stco,
{
    let header = header_at(data, pos);
    let merged = delta_view(old, new);
    let list = list_atoms(Seq::empty(), merged);
    lemma_list_atoms_after(st.out + header, merged);
    let x = list_atoms(st.out + header, merged);
    assert(x == st.out + header + list);
    assert(x.len() == pos + 8 + list.len());
    let delta = x.len() - pos - atom_size(header);
    let x1 = opt_patched(x, st.moov, delta);
    lemma_opt_patched(x, st.moov, delta);
    let x2 = opt_patched(x1, st.udta, delta);
    lemma_opt_patched(x1, st.udta, delta);
    let x3 = opt_patched(x2, st.meta, delta);
    lemma_opt_patched(x2, st.meta, delta);
    let x4 = patched(x3, pos, delta);
    crate::m4a::roundtrip::lemma_patched(x3, pos, delta);
    assert(list_rewritten(st, header, old, new).out == x4);
    assert forall|i: int| pos <= i < x.len() implies !in_size(i, st.moov) && !in_size(
        i,
        st.udta,
    ) && !in_size(i, st.meta) by {}
    assert(x3.subrange(pos, pos + 4) =~= x.subrange(pos, pos + 4));
    assert(x.subrange(pos, pos + 4) =~= header.subrange(0, 4));
    crate::tools::lemma_be_value_bound(header.subrange(0, 4));
    let out_header = header_at(x4, pos);
    assert(out_header.subrange(0, 4) =~= x4.subrange(pos, pos + 4));
    assert(out_header.subrange(4, 8) =~= header.subrange(4, 8)) by {
        assert forall|k: int| 4 <= k < 8 implies #[trigger] out_header[k] == header[k] by {
            assert(x4[pos + k] == x3[pos + k]);
            assert(x[pos + k] == header[k]);
        }
    }
    assert(x4.subrange(pos + 8, pos + 8 + list.len() as int) =~= list) by {
        assert forall|k: int| 0 <= k < list.len() implies #[trigger] x4[pos + 8 + k]
            == list[k] by {
            assert(x4[pos + 8 + k] == x3[pos + 8 + k]);
            assert(x[pos + 8 + k] == list[k]);
        }
    }
    assert forall|i: int| 0 <= i < pos implies #[trigger] x4[i] == data[i] || in_size(
        i,
        st.moov,
    ) || in_size(i, st.udta) || in_size(i, st.meta) by {
        assert(x4[i] == x3[i]);
        assert(x[i] == data[i]);
    }
}

/// What rewriting holds, and where it stands, when it comes to the media data.
pub open spec fn at_media(data: Seq<u8>, pos: int, st: RewriteView, new: TagsView) -> (
    RewriteView,
    int,
)
    decreases
            (if pos < data.len() {
                data.len() - pos
            } else {
                0
            }),
{
    if pos < 0 || pos + 8 > data.len() {
        (st, pos)
    } else {
        let header = header_at(data, pos);
        if 1 < atom_size(header) < 8 || atom_name(header) == "mdat"@ {
            (st, pos)
        } else {
            match atom_rewritten(data, pos, header, st, new) {
                Err(_) => (st, pos),
                Ok((next, p)) => if p <= pos {
                    (st, pos)
                } else {
                    at_media(data, p, next, new)
                },
            }
        }
    }
}

/// What one atom adds to what rewriting holds: nothing is taken away.
pub proof fn lemma_atom_grows(data: Seq<u8>, pos: int, st: RewriteView, new: TagsView)
    requires
        0 <= pos,
        pos + 8 <= data.len(),
        atom_rewritten(data, pos, header_at(data, pos), st, new) is Ok,
    ensures
        atom_rewritten(data, pos, header_at(data, pos), st, new)->Ok_0.0.out.len()
            >= st.out.len() + 8,
{
    lemma_names();
    let header = header_at(data, pos);
    if atom_name(header) == "ilst"@ {
        let old = list_read(
            data,
            pos + 8,
            crate::m4a::atom_end(pos, atom_size(header)),
            TagsView::none(),
        )->Ok_0.0;
        let merged = delta_view(old, new);
        lemma_list_atoms_after(st.out + header, merged);
        let x = list_atoms(st.out + header, merged);
        let delta = x.len() - st.out.len() - atom_size(header);
        assert(opt_patched(x, st.moov, delta).len() == x.len());
        assert(opt_patched(opt_patched(x, st.moov, delta), st.udta, delta).len() == x.len());
        assert(opt_patched(
            opt_patched(opt_patched(x, st.moov, delta), st.udta, delta),
            st.meta,
            delta,
        ).len() == x.len());
    }
}

/// The rewritten file is at least as long as what rewriting holds on the way.
pub proof fn lemma_grows(data: Seq<u8>, pos: int, st: RewriteView, new: TagsView)
    requires
        atoms_rewritten(data, pos, st, new) is Ok,
    ensures
        atoms_rewritten(data, pos, st, new)->Ok_0.len() >= st.out.len(),
    decreases
            (if pos < data.len() {
                data.len() - pos
            } else {
                0
            }),
{
    let header = header_at(data, pos);
    if atom_name(header) == "mdat"@ {
        let at = st.stco->0 as int;
        lemma_offsets_len(st.out, at, st.out.len() - pos);
    } else {
        let r = atom_rewritten(data, pos, header, st, new)->Ok_0;
        lemma_atom_grows(data, pos, st, new);
        lemma_grows(data, r.1, r.0, new);
    }
}

/// Moving the chunk offsets keeps the length, and changes nothing but the
/// offsets that the table holds.
pub proof fn lemma_offsets_len(out: Seq<u8>, at: int, delta: int)
    requires
        0 <= at,
    ensures
        offsets_patched(out, at, delta).len() == out.len(),
        forall|i: int|
            0 <= i < out.len() && !(at + 16 <= i < at + 16 + 4 * offsets_held(out, at))
                ==> #[trigger] offsets_patched(out, at, delta)[i] == out[i],
        offsets_held(out, at) == 0 || at + 16 + 4 * offsets_held(out, at) <= at + atom_size(
            header_at(out, at),
        ),
{
    let n = offsets_held(out, at);
    if at + 16 <= out.len() {
        lemma_held_in(out, at);
        crate::m4a::roundtrip::lemma_entries_kept(out, at + 16, n, delta);
    }
}

/// The chunk offsets that a table holds lie within what is written and
/// within the table.
pub proof fn lemma_held_in(out: Seq<u8>, at: int)
    requires
        at + 16 <= out.len(),
        0 <= at,
    ensures
        at + 16 + 4 * offsets_held(out, at) <= out.len(),
        offsets_held(out, at) == 0 || at + 16 + 4 * offsets_held(out, at) <= at + atom_size(
            header_at(out, at),
        ),
{
    crate::tools::lemma_be_value_bound(out.subrange(at, at + 4));
    assert(header_at(out, at).subrange(0, 4) =~= out.subrange(at, at + 4));
}

/// What one more atom does to what rewriting holds: what was written
/// before stays as it is, but for the sizes of the atoms that are remembered.
pub proof fn lemma_atom_keeps(
    data: Seq<u8>,
    pos: int,
    st: RewriteView,
    new: TagsView,
    base: Seq<u8>,
    len: int,
    recs: RewriteView,
)
    requires
        0 <= pos,
        pos + 8 <= data.len(),
        atom_rewritten(data, pos, header_at(data, pos), st, new) is Ok,
        atom_rewritten(data, pos, header_at(data, pos), st, new)->Ok_0.0.out.len()
            <= usize::MAX,
        st.well_formed(),
        0 <= len,
        same_but_sizes(base, st.out, len, recs),
        kept_or_later(recs.moov, st.moov, len),
        kept_or_later(recs.udta, st.udta, len),
        kept_or_later(recs.meta, st.meta, len),
        kept_or_later(recs.stco, st.stco, len),
    ensures
        atom_rewritten(data, pos, header_at(data, pos), st, new)->Ok_0.0.well_formed(),
        same_but_sizes(
            base,
            atom_rewritten(data, pos, header_at(data, pos), st, new)->Ok_0.0.out,
            len,
            recs,
        ),
        kept_or_later(
            recs.moov,
            atom_rewritten(data, pos, header_at(data, pos), st, new)->Ok_0.0.moov,
            len,
        ),
        kept_or_later(
            recs.udta,
            atom_rewritten(data, pos, header_at(data, pos), st, new)->Ok_0.0.udta,
            len,
        ),
        kept_or_later(
            recs.meta,
            atom_rewritten(data, pos, header_at(data, pos), st, new)->Ok_0.0.meta,
            len,
        ),
        kept_or_later(
            recs.stco,
            atom_rewritten(data, pos, header_at(data, pos), st, new)->Ok_0.0.stco,
            len,
        ),
{
    lemma_names();
    lemma_atom_grows(data, pos, st, new);
    let header = header_at(data, pos);
    let next = atom_rewritten(data, pos, header, st, new)->Ok_0.0;
    assert(st.out.len() as usize == st.out.len());
    if atom_name(header) == "ilst"@ {
        let old = list_read(
            data,
            pos + 8,
            crate::m4a::atom_end(pos, atom_size(header)),
            TagsView::none(),
        )->Ok_0.0;
        let merged = delta_view(old, new);
        lemma_list_atoms_after(st.out + header, merged);
        let x = list_atoms(st.out + header, merged);
        let at = st.out.len() as int;
        let delta = x.len() - at - atom_size(header);
        let x1 = opt_patched(x, st.moov, delta);
        lemma_opt_patched(x, st.moov, delta);
        let x2 = opt_patched(x1, st.udta, delta);
        lemma_opt_patched(x1, st.udta, delta);
        let x3 = opt_patched(x2, st.meta, delta);
        lemma_opt_patched(x2, st.meta, delta);
        crate::m4a::roundtrip::lemma_patched(x3, at, delta);
        assert(next.out == patched(x3, at, delta));
        assert forall|i: int| 0 <= i < len implies #[trigger] next.out[i] == base[i] || in_size(
            i,
            recs.moov,
        ) || in_size(i, recs.udta) || in_size(i, recs.meta) by {
            assert(x[i] == st.out[i]);
            assert(st.out[i] == base[i] || in_size(i, recs.moov) || in_size(i, recs.udta)
                || in_size(i, recs.meta));
            if !in_size(i, st.moov) && !in_size(i, st.udta) && !in_size(i, st.meta) {
                assert(x1[i] == x[i]);
                assert(x2[i] == x1[i]);
                assert(x3[i] == x2[i]);
                assert(next.out[i] == x3[i]);
            }
        }
    } else {
        assert forall|i: int| 0 <= i < len implies #[trigger] next.out[i] == base[i] || in_size(
            i,
            recs.moov,
        ) || in_size(i, recs.udta) || in_size(i, recs.meta) by {
            assert(next.out[i] == st.out[i]);
            assert(st.out[i] == base[i] || in_size(i, recs.moov) || in_size(i, recs.udta)
                || in_size(i, recs.meta));
        }
    }
}

/// What rewriting gives in the end: what it holds when it comes to the
/// media data, with the chunk offsets moved, and the rest of the file.
/// What was written before stays as it is on the way, but for the sizes of
/// the atoms that are remembered.
pub proof fn lemma_rewritten_to_media(
    data: Seq<u8>,
    pos: int,
    st: RewriteView,
    new: TagsView,
    base: Seq<u8>,
    len: int,
    recs: RewriteView,
)
    requires
        atoms_rewritten(data, pos, st, new) is Ok,
        atoms_rewritten(data, pos, st, new)->Ok_0.len() <= usize::MAX,
        st.well_formed(),
        0 <= len,
        same_but_sizes(base, st.out, len, recs),
        kept_or_later(recs.moov, st.moov, len),
        kept_or_later(recs.udta, st.udta, len),
        kept_or_later(recs.meta, st.meta, len),
        kept_or_later(recs.stco, st.stco, len),
    ensures
        at_media(data, pos, st, new).0.stco is Some,
        atoms_rewritten(data, pos, st, new)->Ok_0 == offsets_patched(
            at_media(data, pos, st, new).0.out,
            at_media(data, pos, st, new).0.stco->0 as int,
            at_media(data, pos, st, new).0.out.len() - at_media(data, pos, st, new).1,
        ) + crate::store::rest(data, at_media(data, pos, st, new).1),
        same_but_sizes(base, at_media(data, pos, st, new).0.out, len, recs),
        kept_or_later(recs.stco, at_media(data, pos, st, new).0.stco, len),
        at_media(data, pos, st, new).0.well_formed(),
    decreases
            (if pos < data.len() {
                data.len() - pos
            } else {
                0
            }),
{
    let header = header_at(data, pos);
    if atom_name(header) == "mdat"@ {
    } else {
        let r = atom_rewritten(data, pos, header, st, new)->Ok_0;
        lemma_grows(data, r.1, r.0, new);
        lemma_atom_keeps(data, pos, st, new, base, len, recs);
        lemma_rewritten_to_media(data, r.1, r.0, new, base, len, recs);
    }
}

/// What the rewritten file holds up to the end of the list of tags: the
/// file as it was before the list, but for the sizes of the atoms around
/// the list and for the chunk offsets; the header of the list and its atoms
/// as rewriting the list gave them.
pub proof fn lemma_file_agrees(
    data: Seq<u8>,
    file: Seq<u8>,
    end: int,
    st: RewriteView,
    listed: Seq<u8>,
    held: RewriteView,
    media: int,
)
    requires
        verbatim(data, st, end),
        same_but_sizes(data, listed, end, st),
        listed.len() >= end + 8,
        held.stco is Some,
        held.well_formed(),
        same_but_sizes(listed, held.out, listed.len() as int, st),
        kept_or_later(st.stco, held.stco, listed.len() as int),
        file == offsets_patched(held.out, held.stco->0 as int, held.out.len() - media)
            + crate::store::rest(data, media),
    ensures
        agrees(
            data,
            file,
            end,
            st,
            held.stco->0 + 16,
            held.stco->0 + 16 + 4 * offsets_held(held.out, held.stco->0 as int),
        ),
        offsets_inside(
            data,
            st,
            end,
            held.stco->0 + 16,
            held.stco->0 + 16 + 4 * offsets_held(held.out, held.stco->0 as int),
        ),
        file.len() >= listed.len(),
        forall|i: int| end <= i < listed.len() ==> #[trigger] file[i] == listed[i],
{
    lemma_names();
    let at = held.stco->0 as int;
    let n = offsets_held(held.out, at);
    let lo = at + 16;
    let hi = at + 16 + 4 * n;
    let moved = offsets_patched(held.out, at, held.out.len() - media);
    lemma_offsets_len(held.out, at, held.out.len() - media);
    assert forall|i: int| 0 <= i < held.out.len() implies file[i] == moved[i] by {}
    if held.stco == st.stco {
        assert(flat(data, 0, at));
        lemma_flat_split(data, 0, at, end);
        assert(passes(data, at, end));
        assert(agrees(data, held.out, end, st, 0, 0)) by {
            assert forall|i: int| 0 <= i < end implies #[trigger] held.out[i] == data[i]
                || in_size(i, st.moov) || in_size(i, st.udta) || in_size(i, st.meta) || 0 <= i
                < 0 by {
                assert(held.out[i] == listed[i] || in_size(i, st.moov) || in_size(i, st.udta)
                    || in_size(i, st.meta));
                assert(listed[i] == data[i] || in_size(i, st.moov) || in_size(i, st.udta)
                    || in_size(i, st.meta));
            }
        }
        lemma_header_kept(data, held.out, end, st, 0, 0, at);
        assert(st.moov != Some(at as usize));
        assert(st.udta != Some(at as usize));
        assert(st.meta != Some(at as usize));
        assert(atom_size(header_at(held.out, at)) == atom_size(header_at(data, at)));
    }
    assert forall|i: int| 0 <= i < end implies #[trigger] file[i] == data[i] || in_size(
        i,
        st.moov,
    ) || in_size(i, st.udta) || in_size(i, st.meta) || lo <= i < hi by {
        assert(held.out[i] == listed[i] || in_size(i, st.moov) || in_size(i, st.udta)
            || in_size(i, st.meta));
        assert(listed[i] == data[i] || in_size(i, st.moov) || in_size(i, st.udta) || in_size(
            i,
            st.meta,
        ));
        if !(lo <= i < hi) {
            assert(moved[i] == held.out[i]);
        }
    }
    assert forall|i: int| end <= i < listed.len() implies #[trigger] file[i] == listed[i] by {
        assert(held.out[i] == listed[i] || in_size(i, st.moov) || in_size(i, st.udta)
            || in_size(i, st.meta));
        assert(!in_size(i, st.moov) && !in_size(i, st.udta) && !in_size(i, st.meta));
        assert(!(lo <= i < hi));
        assert(moved[i] == held.out[i]);
    }
}

/// Writing tags to an MP4 file and reading them again gives the merged
/// tags: those that the list of tags held, updated by `new`, if they are
/// such as can be stored. The list stands at `list`; the atoms before it
/// are whole and nested as their sizes say, and the atoms around the list
/// keep sizes of atoms when the list grows or shrinks.
#[verifier::rlimit(50)]
pub proof fn lemma_m4a_round_trip(data: Seq<u8>, list: int, new: TagsView)
    requires
        joint(data, 0, list),
        0 <= list,
        list + 8 <= data.len(),
        data.len() <= usize::MAX,
        atom_name(header_at(data, list)) == "ilst"@,
        m4a_rewritten(data, 0, new) is Ok,
        m4a_rewritten(data, 0, new)->Ok_0.len() <= usize::MAX,
        storable(merged_tags(data, list, new)),
        list + 8 + list_atoms(Seq::empty(), merged_tags(data, list, new)).len() < 0x1_0000_0000,
        size_kept(
            m4a_rewritten(data, 0, new)->Ok_0,
            walked(data, 0, list, RewriteView::start()).moov,
        ),
        size_kept(
            m4a_rewritten(data, 0, new)->Ok_0,
            walked(data, 0, list, RewriteView::start()).udta,
        ),
        size_kept(
            m4a_rewritten(data, 0, new)->Ok_0,
            walked(data, 0, list, RewriteView::start()).meta,
        ),
    ensures
        m4a_tags(m4a_rewritten(data, 0, new)->Ok_0, 0) == Ok::<TagsView, ErrorView>(
            merged_tags(data, list, new),
        ),
{
    lemma_names();
    let file = m4a_rewritten(data, 0, new)->Ok_0;
    let start = RewriteView::start();
    assert(data.subrange(0, 0) =~= start.out);
    lemma_joint_flat(data, 0, list);
    lemma_walked(data, 0, list, start, new);
    let st = walked(data, 0, list, start);
    let header = header_at(data, list);
    let read = list_read(
        data,
        list + 8,
        crate::m4a::atom_end(list, atom_size(header)),
        TagsView::none(),
    )->Ok_0;
    let merged = merged_tags(data, list, new);
    assert(merged == delta_view(read.0, new));
    let next = list_rewritten(st, header, read.0, new);
    assert(atom_rewritten(data, list, header, st, new) == Ok::<(RewriteView, int), ErrorView>(
        (next, read.1),
    ));
    assert(atoms_rewritten(data, read.1, next, new) == Ok::<Seq<u8>, ErrorView>(file));
    lemma_list_rewritten(data, list, st, read.0, new);
    let atoms = list_atoms(Seq::empty(), merged);
    assert(next.well_formed());
    lemma_rewritten_to_media(data, read.1, next, new, next.out, next.out.len() as int, next);
    let held = at_media(data, read.1, next, new);
    lemma_file_agrees(data, file, list, st, next.out, held.0, held.1);
    let at = held.0.stco->0 as int;
    lemma_read_passes(
        data,
        file,
        0,
        list,
        st,
        at + 16,
        at + 16 + 4 * offsets_held(held.0.out, at),
    );
    let out_header = header_at(file, list);
    assert(out_header =~= header_at(next.out, list));
    assert(list_found(file, list) == Ok::<Option<(int, int)>, ErrorView>(
        Some((list + 8, list + 8 + atoms.len())),
    ));
    assert(file.subrange(list + 8, list + 8 + atoms.len() as int) =~= atoms) by {
        assert forall|k: int| 0 <= k < atoms.len() implies #[trigger] file[list + 8 + k]
            == atoms[k] by {
            assert(next.out.subrange(list + 8, list + 8 + atoms.len() as int)[k] == atoms[k]);
        }
    }
    crate::m4a::roundtrip::lemma_list_read(file, list + 8, merged);
}

/// The tags that rewriting writes into the list at `list`: those that the
/// list held, updated by `new`.
pub open spec fn merged_tags(data: Seq<u8>, list: int, new: TagsView) -> TagsView {
    match list_read(
        data,
        list + 8,
        crate::m4a::atom_end(list, atom_size(header_at(data, list))),
        TagsView::none(),
    ) {
        Ok((old, _)) => delta_view(old, new),
        Err(_) => delta_view(TagsView::none(), new),
    }
}

} // verus!
