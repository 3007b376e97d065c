//! The bitstream demuxer: a pure, single-pass transform from a raw Annex-B
//! byte buffer to an ordered sequence of access-unit-aligned frames.

use vstd::prelude::*;

use crate::frame::{DemuxError, Frame};

verus! {

/// The nal_unit_type field: the low five bits of a NAL unit's first byte.
pub open spec fn nalu_type(n: Seq<u8>) -> u8 {
    n[0] & 0x1f
}

/// Whether a NAL unit type carries coded slice data (a VCL unit).
pub open spec fn is_vcl_type(t: u8) -> bool {
    1 <= t && t <= 5
}

/// The boundary detector classifies a NAL unit when it is non-empty, its
/// forbidden_zero_bit is clear, its type is not the reserved zero, and a
/// VCL unit has at least the first slice-header byte.
pub open spec fn nalu_classifiable(n: Seq<u8>) -> bool {
    &&& n.len() >= 1
    &&& n[0] & 0x80 == 0
    &&& nalu_type(n) != 0
    &&& (is_vcl_type(nalu_type(n)) ==> n.len() >= 2)
}

/// Whether a classifiable NAL unit begins a new access unit: a coded slice
/// whose first_mb_in_slice is zero (the leading slice-header bit is set),
/// or an access unit delimiter.
pub open spec fn begins_access_unit(n: Seq<u8>) -> bool {
    if is_vcl_type(nalu_type(n)) {
        n[1] & 0x80 != 0
    } else {
        nalu_type(n) == 9
    }
}

/// Classifies one NAL unit; `Some(true)` says it begins a new access unit,
/// `None` that the detector cannot classify it.
fn classify_nalu(n: &[u8]) -> (r: Option<bool>)
    ensures
        nalu_classifiable(n@) ==> r == Some(begins_access_unit(n@)),
        !nalu_classifiable(n@) ==> r == None::<bool>,
{
    if n.len() == 0 {
        return None;
    }
    let b0 = n[0];
    if b0 & 0x80 != 0 {
        return None;
    }
    let t = b0 & 0x1f;
    if t == 0 {
        return None;
    }
    if t <= 5 {
        if n.len() < 2 {
            return None;
        }
        Some(n[1] & 0x80 != 0)
    } else {
        Some(t == 9)
    }
}

/// A four-byte start code 00 00 00 01 at position i.
pub open spec fn code4_at(b: Seq<u8>, i: int) -> bool {
    &&& 0 <= i && i + 4 <= b.len()
    &&& b[i] == 0u8 && b[i + 1] == 0u8 && b[i + 2] == 0u8 && b[i + 3] == 1u8
}

/// A three-byte start code 00 00 01 at position i.
pub open spec fn code3_at(b: Seq<u8>, i: int) -> bool {
    &&& 0 <= i && i + 3 <= b.len()
    &&& b[i] == 0u8 && b[i + 1] == 0u8 && b[i + 2] == 1u8
}

/// A start code at position i, in either form.
pub open spec fn code_at(b: Seq<u8>, i: int) -> bool {
    code4_at(b, i) || code3_at(b, i)
}

/// How many bytes the start code at i takes; the four-byte form wins.
pub open spec fn code_len_at(b: Seq<u8>, i: int) -> int {
    if code4_at(b, i) { 4 } else { 3 }
}

/// The NAL units found from scan position i on, the unit under construction
/// having started at s: each start code ends the unit before it, and the
/// last unit runs to the end of the stream.
pub open spec fn nalus_from(b: Seq<u8>, s: int, i: int) -> Seq<Seq<u8>>
    decreases b.len() - i,
{
    if !(0 <= s <= i <= b.len()) {
        Seq::empty()
    } else if i == b.len() {
        seq![b.subrange(s, i)]
    } else if code_at(b, i) {
        seq![b.subrange(s, i)] + nalus_from(b, i + code_len_at(b, i), i + code_len_at(b, i))
    } else {
        nalus_from(b, s, i + 1)
    }
}

/// Skips the bytes before the first start code; a stream without any start
/// code has no NAL units at all.
pub open spec fn scan_leading(b: Seq<u8>, i: int) -> Seq<Seq<u8>>
    decreases b.len() - i,
{
    if !(0 <= i < b.len()) {
        Seq::empty()
    } else if code_at(b, i) {
        nalus_from(b, i + code_len_at(b, i), i + code_len_at(b, i))
    } else {
        scan_leading(b, i + 1)
    }
}

/// The ordered NAL units of an Annex-B byte stream.
pub open spec fn annexb_nalus(b: Seq<u8>) -> Seq<Seq<u8>> {
    scan_leading(b, 0)
}

/// The views of a sequence of byte vectors.
pub open spec fn views_of(s: Seq<Vec<u8>>) -> Seq<Seq<u8>> {
    s.map_values(|v: Vec<u8>| v@)
}

fn is_code4_at(b: &[u8], i: usize) -> (r: bool)
    requires
        i <= b@.len(),
    ensures
        r == code4_at(b@, i as int),
{
    b.len() - i >= 4 && b[i] == 0 && b[i + 1] == 0 && b[i + 2] == 0 && b[i + 3] == 1
}

fn is_code3_at(b: &[u8], i: usize) -> (r: bool)
    requires
        i <= b@.len(),
    ensures
        r == code3_at(b@, i as int),
{
    b.len() - i >= 3 && b[i] == 0 && b[i + 1] == 0 && b[i + 2] == 1
}

fn is_code_at(b: &[u8], i: usize) -> (r: bool)
    requires
        i <= b@.len(),
    ensures
        r == code_at(b@, i as int),
{
    is_code4_at(b, i) || is_code3_at(b, i)
}

fn code_len_at_exec(b: &[u8], i: usize) -> (r: usize)
    requires
        i <= b@.len(),
        code_at(b@, i as int),
    ensures
        r == code_len_at(b@, i as int),
        i + r <= b@.len(),
{
    if is_code4_at(b, i) { 4 } else { 3 }
}

/// Copies the bytes of `b[s..e]` into a fresh vector.
fn copy_range(b: &[u8], s: usize, e: usize) -> (r: Vec<u8>)
    requires
        s <= e <= b@.len(),
    ensures
        r@ == b@.subrange(s as int, e as int),
{
    let mut r: Vec<u8> = Vec::new();
    let mut k = s;
    while k < e
        invariant
            s <= k <= e <= b@.len(),
            r@ == b@.subrange(s as int, k as int),
        decreases e - k,
    {
        r.push(b[k]);
        proof {
            assert(b@.subrange(s as int, k + 1 as int)
                =~= b@.subrange(s as int, k as int).push(b@[k as int]));
        }
        k = k + 1;
    }
    r
}

/// Splits an Annex-B byte stream into its ordered NAL units.
pub fn split_nalus(b: &[u8]) -> (r: Vec<Vec<u8>>)
    ensures
        views_of(r@) == annexb_nalus(b@),
{
    let n = b.len();
    let mut i: usize = 0;
    while i < n && !is_code_at(b, i)
        invariant
            i <= n,
            n == b@.len(),
            annexb_nalus(b@) == scan_leading(b@, i as int),
        decreases n - i,
    {
        i = i + 1;
    }
    if i >= n {
        let r: Vec<Vec<u8>> = Vec::new();
        proof {
            assert(views_of(r@) =~= annexb_nalus(b@));
        }
        return r;
    }
    let cl = code_len_at_exec(b, i);
    let mut s: usize = i + cl;
    i = s;
    let mut out: Vec<Vec<u8>> = Vec::new();
    loop
        invariant
            s <= i <= n,
            n == b@.len(),
            annexb_nalus(b@) == views_of(out@) + nalus_from(b@, s as int, i as int),
        decreases n - i,
    {
        if i >= n {
            let last = copy_range(b, s, n);
            out.push(last);
            proof {
                assert(views_of(out@) =~= annexb_nalus(b@));
            }
            return out;
        }
        if is_code_at(b, i) {
            let unit = copy_range(b, s, i);
            let ghost old_out = out@;
            out.push(unit);
            proof {
                assert(views_of(out@) =~= views_of(old_out).push(b@.subrange(s as int, i as int)));
            }
            let cl2 = code_len_at_exec(b, i);
            i = i + cl2;
            s = i;
        } else {
            i = i + 1;
        }
    }
}

/// The canonical four-byte start code every NAL unit is re-prefixed with.
pub open spec fn start_code() -> Seq<u8> {
    seq![0u8, 0u8, 0u8, 1u8]
}

/// A NAL unit re-prefixed with the canonical start code.
pub open spec fn prefixed(n: Seq<u8>) -> Seq<u8> {
    start_code() + n
}

/// Every NAL unit of the stream can be classified by the detector.
pub open spec fn all_classifiable(nalus: Seq<Seq<u8>>) -> bool {
    forall|k: int| 0 <= k < nalus.len() ==> nalu_classifiable(#[trigger] nalus[k])
}

/// The access units emitted when scanning `nalus` from position i on, with
/// the bytes `acc` already accumulated for the unit under construction and
/// the units `out` already emitted: a boundary-beginning NAL unit first
/// flushes a non-empty accumulator, every NAL unit is then appended
/// re-prefixed, and whatever remains at the end is flushed last.
pub open spec fn demux_from(nalus: Seq<Seq<u8>>, i: int, acc: Seq<u8>, out: Seq<Seq<u8>>) -> Seq<Seq<u8>>
    decreases nalus.len() - i,
{
    if !(0 <= i < nalus.len()) {
        if acc.len() > 0 { out.push(acc) } else { out }
    } else if begins_access_unit(nalus[i]) && acc.len() > 0 {
        demux_from(nalus, i + 1, prefixed(nalus[i]), out.push(acc))
    } else {
        demux_from(nalus, i + 1, acc + prefixed(nalus[i]), out)
    }
}

/// The access units of a NAL unit sequence, each the concatenation of its
/// re-prefixed NAL units, in decode order.
pub open spec fn demux_units(nalus: Seq<Seq<u8>>) -> Seq<Seq<u8>> {
    demux_from(nalus, 0, Seq::empty(), Seq::empty())
}

/// The data buffers of a sequence of frames.
pub open spec fn frames_data(fs: Seq<Frame>) -> Seq<Seq<u8>> {
    fs.map_values(|f: Frame| f.data@)
}

/// Appends the canonical start code and then the bytes of `nalu` to `acc`.
fn append_prefixed(acc: &mut Vec<u8>, nalu: &[u8])
    ensures
        final(acc)@ == old(acc)@ + prefixed(nalu@),
{
    acc.push(0);
    acc.push(0);
    acc.push(0);
    acc.push(1);
    let ghost with_code = acc@;
    assert(with_code =~= old(acc)@ + start_code());
    let mut k: usize = 0;
    while k < nalu.len()
        invariant
            k <= nalu@.len(),
            acc@ == with_code + nalu@.subrange(0, k as int),
        decreases nalu@.len() - k,
    {
        acc.push(nalu[k]);
        proof {
            assert(with_code + nalu@.subrange(0, k + 1 as int)
                =~= (with_code + nalu@.subrange(0, k as int)).push(nalu@[k as int]));
        }
        k = k + 1;
    }
    proof {
        assert(nalu@.subrange(0, nalu@.len() as int) =~= nalu@);
        assert(with_code + nalu@ =~= old(acc)@ + prefixed(nalu@));
    }
}

/// Splits an Annex-B buffer into NAL units, feeds them through the
/// access-unit boundary detector, and emits each access unit as one Frame
/// whose NAL units are re-prefixed with the canonical start code and whose
/// pts and dts both equal the frame's output index.  A NAL unit the
/// detector cannot classify aborts the whole run: the error names the
/// first such unit and no frames are produced.
pub fn read_frames(buf: &[u8]) -> (r: Result<Vec<Frame>, DemuxError>)
    ensures
        match r {
            Ok(frames) => {
                &&& all_classifiable(annexb_nalus(buf@))
                &&& frames_data(frames@) == demux_units(annexb_nalus(buf@))
                &&& forall|k: int| 0 <= k < frames@.len()
                    ==> (#[trigger] frames@[k]).pts == k && frames@[k].dts == k
            },
            Err(e) => {
                &&& 0 <= e.nalu_index < annexb_nalus(buf@).len()
                &&& !nalu_classifiable(annexb_nalus(buf@)[e.nalu_index as int])
                &&& forall|k: int| 0 <= k < e.nalu_index
                    ==> nalu_classifiable(#[trigger] annexb_nalus(buf@)[k])
            },
        },
{
    let nalus = split_nalus(buf);
    let ghost gn = annexb_nalus(buf@);
    let n = nalus.len();
    let mut out: Vec<Frame> = Vec::new();
    let mut acc: Vec<u8> = Vec::new();
    let mut i: usize = 0;
    proof {
        assert(frames_data(out@) =~= Seq::<Seq<u8>>::empty());
        assert(acc@ =~= Seq::<u8>::empty());
    }
    while i < n
        invariant
            i <= n,
            n == nalus@.len(),
            views_of(nalus@) == gn,
            gn == annexb_nalus(buf@),
            forall|k: int| 0 <= k < i ==> nalu_classifiable(#[trigger] gn[k]),
            demux_from(gn, i as int, acc@, frames_data(out@)) == demux_units(gn),
            forall|k: int| 0 <= k < out@.len()
                ==> (#[trigger] out@[k]).pts == k && out@[k].dts == k,
        decreases n - i,
    {
        assert(gn[i as int] == nalus@[i as int]@);
        let nalu = &nalus[i];
        match classify_nalu(nalu.as_slice()) {
            None => {
                return Err(DemuxError { nalu_index: i });
            }
            Some(is_new) => {
                if is_new && acc.len() > 0 {
                    let data = acc;
                    acc = Vec::new();
                    let pts = out.len() as u64;
                    let ghost old_out = out@;
                    out.push(Frame { data, pts, dts: pts });
                    proof {
                        assert(frames_data(out@) =~= frames_data(old_out).push(data@));
                    }
                }
                append_prefixed(&mut acc, nalu.as_slice());
            }
        }
        i = i + 1;
    }
    if acc.len() > 0 {
        let pts = out.len() as u64;
        let ghost old_out = out@;
        let ghost last = acc@;
        out.push(Frame { data: acc, pts, dts: pts });
        proof {
            assert(frames_data(out@) =~= frames_data(old_out).push(last));
        }
    }
    Ok(out)
}

/// The concatenation of a NAL unit sequence, each unit re-prefixed with
/// the canonical start code.
pub open spec fn concat_prefixed(nalus: Seq<Seq<u8>>) -> Seq<u8>
    decreases nalus.len(),
{
    if nalus.len() == 0 {
        Seq::empty()
    } else {
        prefixed(nalus[0]) + concat_prefixed(nalus.drop_first())
    }
}

/// How many NAL units in `nalus` from position i on begin a new access unit.
pub open spec fn num_boundaries(nalus: Seq<Seq<u8>>, i: int) -> int
    decreases nalus.len() - i,
{
    if !(0 <= i < nalus.len()) {
        0
    } else {
        (if begins_access_unit(nalus[i]) { 1int } else { 0int }) + num_boundaries(nalus, i + 1)
    }
}

proof fn lemma_no_boundary_run(nalus: Seq<Seq<u8>>, i: int, acc: Seq<u8>, out: Seq<Seq<u8>>)
    requires
        0 <= i <= nalus.len(),
        acc.len() > 0,
        forall|k: int| i <= k < nalus.len() ==> !begins_access_unit(#[trigger] nalus[k]),
    ensures
        demux_from(nalus, i, acc, out) == out.push(acc + concat_prefixed(nalus.skip(i))),
    decreases nalus.len() - i,
{
    if i == nalus.len() {
        assert(nalus.skip(i).len() == 0);
        assert(acc + concat_prefixed(nalus.skip(i)) =~= acc);
    } else {
        lemma_no_boundary_run(nalus, i + 1, acc + prefixed(nalus[i]), out);
        assert(nalus.skip(i).drop_first() =~= nalus.skip(i + 1));
        assert(nalus.skip(i)[0] == nalus[i]);
        assert((acc + prefixed(nalus[i])) + concat_prefixed(nalus.skip(i + 1))
            =~= acc + concat_prefixed(nalus.skip(i)));
    }
}

/// When no NAL unit after the first begins a new access unit, demuxing
/// folds every unit into exactly one access unit: the concatenation of all
/// units in order, each re-prefixed with the canonical start code.
pub proof fn lemma_single_access_unit(nalus: Seq<Seq<u8>>)
    requires
        nalus.len() > 0,
        forall|k: int| 1 <= k < nalus.len() ==> !begins_access_unit(#[trigger] nalus[k]),
    ensures
        demux_units(nalus) == seq![concat_prefixed(nalus)],
{
    lemma_no_boundary_run(nalus, 1, prefixed(nalus[0]), Seq::empty());
    assert(nalus.skip(1) =~= nalus.drop_first());
    assert(demux_from(nalus, 0, Seq::empty(), Seq::empty())
        == demux_from(nalus, 1, Seq::empty() + prefixed(nalus[0]), Seq::empty()));
    assert(Seq::empty() + prefixed(nalus[0]) =~= prefixed(nalus[0]));
    assert(Seq::<Seq<u8>>::empty().push(prefixed(nalus[0]) + concat_prefixed(nalus.drop_first()))
        =~= seq![concat_prefixed(nalus)]);
}

proof fn lemma_boundary_count_run(nalus: Seq<Seq<u8>>, i: int, acc: Seq<u8>, out: Seq<Seq<u8>>)
    requires
        0 <= i <= nalus.len(),
        acc.len() > 0,
    ensures
        demux_from(nalus, i, acc, out).len() == out.len() + num_boundaries(nalus, i) + 1,
    decreases nalus.len() - i,
{
    if i < nalus.len() {
        if begins_access_unit(nalus[i]) {
            lemma_boundary_count_run(nalus, i + 1, prefixed(nalus[i]), out.push(acc));
        } else {
            lemma_boundary_count_run(nalus, i + 1, acc + prefixed(nalus[i]), out);
        }
    }
}

/// Demuxing yields exactly as many access units as there are
/// boundary-beginning NAL units when the first unit begins one — the
/// stream's usual shape — and one more otherwise, for the units before the
/// first boundary.  Each unit's pts and dts equal its output index by
/// `read_frames`' own contract.
pub proof fn lemma_access_unit_count(nalus: Seq<Seq<u8>>)
    requires
        nalus.len() > 0,
    ensures
        demux_units(nalus).len() == num_boundaries(nalus, 0) + (if begins_access_unit(nalus[0]) {
            0int
        } else {
            1int
        }),
{
    lemma_boundary_count_run(nalus, 1, Seq::empty() + prefixed(nalus[0]), Seq::empty());
}

/// When the boundary detector signals a new access unit only before the
/// third of four NAL units, the four fold into two frames' worth of data:
/// the first two units and the last two, re-prefixed, in order.
pub proof fn lemma_boundary_split(a: Seq<u8>, b: Seq<u8>, c: Seq<u8>, d: Seq<u8>)
    requires
        !begins_access_unit(b),
        begins_access_unit(c),
        !begins_access_unit(d),
    ensures
        demux_units(seq![a, b, c, d]) == seq![prefixed(a) + prefixed(b), prefixed(c) + prefixed(d)],
{
    let nalus = seq![a, b, c, d];
    assert(nalus[0] == a && nalus[1] == b && nalus[2] == c && nalus[3] == d);
    let acc1 = Seq::empty() + prefixed(a);
    let acc2 = acc1 + prefixed(b);
    let acc3 = Seq::empty() + prefixed(c);
    let acc4 = acc3 + prefixed(d);
    let out2 = Seq::<Seq<u8>>::empty().push(acc2);
    assert(demux_units(nalus) == demux_from(nalus, 1, acc1, Seq::empty()));
    assert(demux_from(nalus, 1, acc1, Seq::empty()) == demux_from(nalus, 2, acc2, Seq::empty()));
    assert(demux_from(nalus, 2, acc2, Seq::empty()) == demux_from(nalus, 3, prefixed(c), out2));
    assert(prefixed(c) =~= acc3);
    assert(demux_from(nalus, 3, acc3, out2) == demux_from(nalus, 4, acc4, out2));
    assert(demux_from(nalus, 4, acc4, out2) == out2.push(acc4));
    assert(acc2 =~= prefixed(a) + prefixed(b));
    assert(acc4 =~= prefixed(c) + prefixed(d));
    assert(out2.push(acc4) =~= seq![prefixed(a) + prefixed(b), prefixed(c) + prefixed(d)]);
}

/// Demuxing an empty buffer yields no NAL units, hence no frames and never
/// an error: every clause of `read_frames`' success case holds trivially.
pub proof fn lemma_empty_input()
    ensures
        annexb_nalus(Seq::<u8>::empty()) == Seq::<Seq<u8>>::empty(),
        demux_units(Seq::<Seq<u8>>::empty()) == Seq::<Seq<u8>>::empty(),
        all_classifiable(Seq::<Seq<u8>>::empty()),
{
    assert(annexb_nalus(Seq::<u8>::empty()) == Seq::<Seq<u8>>::empty());
    assert(demux_from(Seq::<Seq<u8>>::empty(), 0, Seq::empty(), Seq::empty())
        == Seq::<Seq<u8>>::empty());
}

} // verus!
