//! The assembler backend: place each origin region's nibbles into the
//! 256-nibble output image, detect overlap between regions, record label
//! addresses, and patch label references once every label is known.

use vstd::prelude::*;
use vstd::array::array_fill_for_copy_types;
use crate::assembler::AsmError;
use crate::assembler::AsmErrorV;
use crate::assembler::AsmMessage;
use crate::assembler::Stage;
use crate::emulator::seq_vals;
use crate::lexing::LexToken;
use crate::lexing::LexTokenV;
use crate::lexing::TokenLineNumPair;
use crate::lexing::TokenLineNumPairV;
use crate::lexing::view_tokens;
use crate::isa::spec_into_u4;
use crate::nibble::u4;

verus! {

/// A closed origin region: a run of `size` nibbles placed at `start_addr`,
/// declared (when explicit) on line `linenum`.
#[derive(Clone, Copy, PartialEq, Eq, Structural, Debug)]
pub struct Org {
    pub start_addr: u8,
    pub size: usize,
    pub linenum: Option<usize>,
}

/// The mathematical model of an origin region.
pub struct OrgV {
    pub start: int,
    pub size: int,
    pub linenum: Option<int>,
}

/// An `Option<usize>` as an `Option<int>`.
pub open spec fn view_opt(o: Option<usize>) -> Option<int> {
    match o {
        Some(n) => Some(n as int),
        None => None,
    }
}

impl View for Org {
    type V = OrgV;

    open spec fn view(&self) -> OrgV {
        OrgV {
            start: self.start_addr as int,
            size: self.size as int,
            linenum: view_opt(self.linenum),
        }
    }
}

/// Two regions overlap when the address ranges `[start, start + size)`
/// have a common element.
pub open spec fn overlap_v(a: OrgV, b: OrgV) -> bool {
    let lo = if a.start >= b.start {
        a.start
    } else {
        b.start
    };
    let hi = if a.start + a.size <= b.start + b.size {
        a.start + a.size
    } else {
        b.start + b.size
    };
    lo < hi
}

impl Org {
    /// The first address past this region.
    pub fn end_addr(self) -> (r: usize)
        requires
            self.start_addr + self.size <= usize::MAX,
        ensures
            r == self@.start + self@.size,
    {
        self.start_addr as usize + self.size
    }

    /// Whether this region and the other claim a common address.
    pub fn overlap(self, other: Org) -> (r: bool)
        requires
            self.start_addr + self.size <= usize::MAX,
            other.start_addr + other.size <= usize::MAX,
        ensures
            r == overlap_v(self@, other@),
    {
        let lo = if self.start_addr >= other.start_addr {
            self.start_addr as usize
        } else {
            other.start_addr as usize
        };
        let e1 = self.end_addr();
        let e2 = other.end_addr();
        let hi = if e1 <= e2 {
            e1
        } else {
            e2
        };
        lo < hi
    }
}

/// A pending label reference: the name, the image address of its
/// placeholder, its width, and the referencing source line.
struct LabelRef {
    name: Vec<u8>,
    addr: usize,
    wide: bool,
    linenum: usize,
}

/// The mathematical model of a pending label reference.
pub struct RefV {
    pub name: Seq<u8>,
    pub addr: int,
    pub wide: bool,
    pub linenum: int,
}

impl View for LabelRef {
    type V = RefV;

    closed spec fn view(&self) -> RefV {
        RefV {
            name: self.name@,
            addr: self.addr as int,
            wide: self.wide,
            linenum: self.linenum as int,
        }
    }
}

/// The models of the recorded label definitions, in source order.
pub open spec fn view_labels(l: Seq<(Vec<u8>, usize)>) -> Seq<(Seq<u8>, int)> {
    l.map_values(|p: (Vec<u8>, usize)| (p.0@, p.1 as int))
}

/// The models of the pending references, in source order.
spec fn view_refs(l: Seq<LabelRef>) -> Seq<RefV> {
    l.map_values(|r: LabelRef| r@)
}

/// The models of the closed origin regions, in close order.
pub open spec fn view_orgs(l: Seq<Org>) -> Seq<OrgV> {
    l.map_values(|o: Org| o@)
}

/// The code generator's whole state between tokens.
pub struct GenStateV {
    /// The output image's 256 nibble values.
    pub output: Seq<u8>,
    /// The accumulation buffer of the in-progress origin.
    pub data: Seq<u8>,
    /// Where the in-progress origin starts, and its declaring line.
    pub cur: OrgV,
    /// Label name to address, in definition order; the last entry wins.
    pub labels: Seq<(Seq<u8>, int)>,
    /// The pending label references.
    pub refs: Seq<RefV>,
    /// The origins closed so far.
    pub orgs: Seq<OrgV>,
}

/// The all-zero output image.
pub open spec fn zero_image() -> Seq<u8> {
    Seq::new(256, |i: int| 0u8)
}

/// The state code generation begins in: the default origin at address 0,
/// with no declared line.
pub open spec fn init_state() -> GenStateV {
    GenStateV {
        output: zero_image(),
        data: Seq::empty(),
        cur: OrgV { start: 0, size: 0, linenum: None },
        labels: Seq::empty(),
        refs: Seq::empty(),
        orgs: Seq::empty(),
    }
}

/// The image with one region's run written over it.
pub open spec fn write_seg(out: Seq<u8>, start: int, data: Seq<u8>) -> Seq<u8> {
    Seq::new(
        out.len(),
        |i: int|
            if start <= i < start + data.len() {
                data[i - start]
            } else {
                out[i]
            },
    )
}

/// The first already-closed origin that conflicts with the closing one, if
/// any; a region reopened at the same start address is no conflict.
pub open spec fn find_conflict_from(orgs: Seq<OrgV>, org: OrgV, i: int) -> Option<int>
    decreases orgs.len() - i,
{
    if i < 0 || i >= orgs.len() {
        None
    } else if orgs[i].start != org.start && overlap_v(orgs[i], org) {
        Some(i)
    } else {
        find_conflict_from(orgs, org, i + 1)
    }
}

/// Why closing the in-progress origin fails, if it does: its content must
/// stay inside the image and must not overlap any earlier origin.
pub open spec fn close_check(orgs: Seq<OrgV>, org: OrgV) -> Option<AsmErrorV> {
    if org.start + org.size > 256 {
        Some(
            AsmErrorV {
                stage: Stage::CodeGen,
                linenum: org.linenum,
                code_snip: Seq::empty(),
                message: AsmMessage::OriginOverflow,
            },
        )
    } else {
        match find_conflict_from(orgs, org, 0) {
            Some(i) => Some(
                AsmErrorV {
                    stage: Stage::CodeGen,
                    linenum: org.linenum,
                    code_snip: Seq::empty(),
                    message: AsmMessage::Overlapping {
                        other_start: orgs[i].start as u8,
                        other_size: orgs[i].size as usize,
                        other_linenum: match orgs[i].linenum {
                            Some(n) => Some(n as usize),
                            None => None,
                        },
                    },
                },
            ),
            None => None,
        }
    }
}

/// Close the in-progress origin: its size is the buffer's length; after the
/// checks, its run is written into the image and it joins the closed
/// origins.
pub open spec fn close_org_v(st: GenStateV) -> Result<GenStateV, AsmErrorV> {
    let org = OrgV { start: st.cur.start, size: st.data.len() as int, linenum: st.cur.linenum };
    match close_check(st.orgs, org) {
        Some(e) => Err(e),
        None => Ok(
            GenStateV {
                output: write_seg(st.output, org.start, st.data),
                data: Seq::empty(),
                orgs: st.orgs.push(org),
                ..st
            },
        ),
    }
}

/// One token's effect on the code generator's state.
pub open spec fn gen_step(st: GenStateV, tok: TokenLineNumPairV) -> Result<
    GenStateV,
    AsmErrorV,
> {
    match tok.token {
        LexTokenV::Org(start) => match close_org_v(st) {
            Err(e) => Err(e),
            Ok(st1) => Ok(
                GenStateV {
                    cur: OrgV { start: start as int, size: 0, linenum: Some(tok.linenum) },
                    ..st1
                },
            ),
        },
        LexTokenV::Instruction(i) => Ok(
            GenStateV { data: st.data.push(spec_into_u4(i)), ..st },
        ),
        LexTokenV::HexLiteral(v) => Ok(GenStateV { data: st.data.push(v), ..st }),
        LexTokenV::LabelRef { name, wide } => {
            let r = RefV {
                name: name,
                addr: st.cur.start + st.data.len(),
                wide: wide,
                linenum: tok.linenum,
            };
            let d1 = st.data.push(0);
            let d2 = if wide {
                d1.push(0)
            } else {
                d1
            };
            Ok(GenStateV { refs: st.refs.push(r), data: d2, ..st })
        },
        LexTokenV::LabelDef(name) => Ok(
            GenStateV { labels: st.labels.push((name, st.cur.start + st.data.len())), ..st },
        ),
    }
}

/// The state after consuming a whole token stream.
pub open spec fn gen_fold(st: GenStateV, toks: Seq<TokenLineNumPairV>) -> Result<
    GenStateV,
    AsmErrorV,
>
    decreases toks.len(),
{
    if toks.len() == 0 {
        Ok(st)
    } else {
        match gen_step(st, toks[0]) {
            Ok(st2) => gen_fold(st2, toks.drop_first()),
            Err(e) => Err(e),
        }
    }
}

/// The address of a label: the last definition wins.
pub open spec fn lookup_label(labels: Seq<(Seq<u8>, int)>, name: Seq<u8>) -> Option<int>
    decreases labels.len(),
{
    if labels.len() == 0 {
        None
    } else if labels.last().0 == name {
        Some(labels.last().1)
    } else {
        lookup_label(labels.drop_last(), name)
    }
}

/// The low nibble of a label address.
pub open spec fn addr_low(a: int) -> u8 {
    (a % 16) as u8
}

/// The high nibble of a label address.
pub open spec fn addr_high(a: int) -> u8 {
    ((a / 16) % 16) as u8
}

/// Patch one reference: a wide one takes the address's high nibble at its
/// placeholder and the low nibble right after; a narrow one takes only the
/// low nibble. An unknown name is fatal.
pub open spec fn patch_one(out: Seq<u8>, r: RefV, labels: Seq<(Seq<u8>, int)>) -> Result<
    Seq<u8>,
    AsmErrorV,
> {
    match lookup_label(labels, r.name) {
        None => Err(
            AsmErrorV {
                stage: Stage::CodeGen,
                linenum: Some(r.linenum),
                code_snip: r.name,
                message: AsmMessage::LabelNotDefined,
            },
        ),
        Some(a) => if r.wide {
            Ok(out.update(r.addr, addr_high(a)).update(r.addr + 1, addr_low(a)))
        } else {
            Ok(out.update(r.addr, addr_low(a)))
        },
    }
}

/// Patch every pending reference from index `i` on, in recorded order.
pub open spec fn patch_from(
    out: Seq<u8>,
    refs: Seq<RefV>,
    labels: Seq<(Seq<u8>, int)>,
    i: int,
) -> Result<Seq<u8>, AsmErrorV>
    decreases refs.len() - i,
{
    if i < 0 || i >= refs.len() {
        Ok(out)
    } else {
        match patch_one(out, refs[i], labels) {
            Ok(out2) => patch_from(out2, refs, labels, i + 1),
            Err(e) => Err(e),
        }
    }
}

/// What code generation yields for a token stream: fold the tokens, close
/// the final origin, then resolve every label reference.
pub open spec fn gencode_spec(toks: Seq<TokenLineNumPairV>) -> Result<Seq<u8>, AsmErrorV> {
    match gen_fold(init_state(), toks) {
        Err(e) => Err(e),
        Ok(st) => match close_org_v(st) {
            Err(e) => Err(e),
            Ok(st1) => patch_from(st1.output, st1.refs, st1.labels, 0),
        },
    }
}

/// A reference's last written cell: a wide reference patches two cells.
pub open spec fn ref_limit(r: RefV) -> int {
    if r.wide {
        r.addr + 1
    } else {
        r.addr
    }
}

/// True when two byte sequences are equal, compared cell by cell.
fn bytes_eq(a: &[u8], b: &[u8]) -> (r: bool)
    ensures
        r == (a@ == b@),
{
    if a.len() != b.len() {
        return false;
    }
    let n = a.len();
    let mut i: usize = 0;
    while i < n
        invariant
            n == a@.len() == b@.len(),
            i <= n,
            forall|k: int| 0 <= k < i ==> a@[k] == b@[k],
        decreases n - i,
    {
        if a[i] != b[i] {
            return false;
        }
        i += 1;
    }
    proof {
        assert(a@ =~= b@);
    }
    true
}

/// Copy a byte vector.
fn copy_bytes(src: &Vec<u8>) -> (r: Vec<u8>)
    ensures
        r@ == src@,
{
    let n = src.len();
    let mut out: Vec<u8> = Vec::new();
    let mut k: usize = 0;
    while k < n
        invariant
            n == src@.len(),
            k <= n,
            out@ == src@.subrange(0, k as int),
        decreases n - k,
    {
        out.push(src[k]);
        proof {
            assert(out@ =~= src@.subrange(0, k + 1));
        }
        k += 1;
    }
    proof {
        assert(out@ =~= src@);
    }
    out
}

/// Close the in-progress origin: check that it fits the image and overlaps
/// no earlier origin, then write its run into the image.
fn write_org(
    cur_start: u8,
    cur_linenum: Option<usize>,
    data: &Vec<u4>,
    output: &mut [u4; 256],
    orgs: &Vec<Org>,
) -> (r: Result<Org, AsmError>)
    requires
        forall|k: int| 0 <= k < orgs@.len() ==> (#[trigger] orgs@[k]).start_addr + orgs@[k].size
            <= 256,
    ensures
        ({
            let org = OrgV {
                start: cur_start as int,
                size: data@.len() as int,
                linenum: view_opt(cur_linenum),
            };
            match r {
                Ok(o) => {
                    &&& o@ == org
                    &&& o.start_addr == cur_start
                    &&& o.size == data@.len()
                    &&& o.linenum == cur_linenum
                    &&& close_check(view_orgs(orgs@), org) is None
                    &&& cur_start + data@.len() <= 256
                    &&& seq_vals(final(output)@) == write_seg(
                        seq_vals(old(output)@),
                        org.start,
                        seq_vals(data@),
                    )
                },
                Err(e) => {
                    &&& close_check(view_orgs(orgs@), org) == Some(e@)
                    &&& final(output)@ == old(output)@
                },
            }
        }),
{
    let ghost orgv = OrgV {
        start: cur_start as int,
        size: data@.len() as int,
        linenum: view_opt(cur_linenum),
    };
    let size = data.len();
    if size > 256 || cur_start as usize + size > 256 {
        return Err(
            AsmError {
                stage: Stage::CodeGen,
                linenum: cur_linenum,
                code_snip: Vec::new(),
                message: AsmMessage::OriginOverflow,
            },
        );
    }
    let org = Org { start_addr: cur_start, size, linenum: cur_linenum };
    let n_orgs = orgs.len();
    let mut i: usize = 0;
    while i < n_orgs
        invariant
            n_orgs == orgs@.len(),
            i <= n_orgs,
            org@ == orgv,
            org.start_addr == cur_start,
            org.size == size,
            org.linenum == cur_linenum,
            size == data@.len(),
            cur_start + size <= 256,
            forall|k: int| 0 <= k < orgs@.len() ==> (#[trigger] orgs@[k]).start_addr
                + orgs@[k].size <= 256,
            find_conflict_from(view_orgs(orgs@), orgv, 0) == find_conflict_from(
                view_orgs(orgs@),
                orgv,
                i as int,
            ),
        decreases n_orgs - i,
    {
        let other = orgs[i];
        if other.start_addr != cur_start {
            if other.overlap(org) {
                proof {
                    assert(view_orgs(orgs@)[i as int] == orgs@[i as int]@);
                    assert(find_conflict_from(view_orgs(orgs@), orgv, i as int) == Some(
                        i as int,
                    ));
                }
                return Err(
                    AsmError {
                        stage: Stage::CodeGen,
                        linenum: cur_linenum,
                        code_snip: Vec::new(),
                        message: AsmMessage::Overlapping {
                            other_start: other.start_addr,
                            other_size: other.size,
                            other_linenum: other.linenum,
                        },
                    },
                );
            }
        }
        i += 1;
    }
    let ghost out0 = seq_vals(output@);
    let ghost dv = seq_vals(data@);
    let mut t: usize = 0;
    proof {
        assert(seq_vals(output@) =~= Seq::new(
            256,
            |x: int|
                if cur_start <= x < cur_start + 0 {
                    dv[x - cur_start]
                } else {
                    out0[x]
                },
        ));
    }
    while t < size
        invariant
            t <= size,
            size == data@.len(),
            dv == seq_vals(data@),
            cur_start + size <= 256,
            output@.len() == 256,
            seq_vals(output@) == Seq::new(
                256,
                |x: int|
                    if cur_start <= x < cur_start + t {
                        dv[x - cur_start]
                    } else {
                        out0[x]
                    },
            ),
        decreases size - t,
    {
        let ghost prev = seq_vals(output@);
        let v = data[t];
        output[cur_start as usize + t] = v;
        proof {
            assert(seq_vals(output@) =~= prev.update(cur_start + t as int, v.val()));
            assert(seq_vals(output@) =~= Seq::new(
                256,
                |x: int|
                    if cur_start <= x < cur_start + (t + 1) {
                        dv[x - cur_start]
                    } else {
                        out0[x]
                    },
            ));
        }
        t += 1;
    }
    proof {
        assert(seq_vals(output@) =~= write_seg(out0, orgv.start, dv));
    }
    Ok(org)
}


/// Patch every pending label reference into the finished image; a name no
/// definition gave an address is fatal.
fn resolve_labels(
    output: &mut [u4; 256],
    labels: &Vec<(Vec<u8>, usize)>,
    label_refs: &Vec<LabelRef>,
) -> (r: Result<(), AsmError>)
    requires
        forall|q: int| 0 <= q < view_refs(label_refs@).len() ==> ref_limit(
            #[trigger] view_refs(label_refs@)[q],
        ) < 256,
    ensures
        match r {
            Ok(()) => patch_from(
                seq_vals(old(output)@),
                view_refs(label_refs@),
                view_labels(labels@),
                0,
            ) == Ok::<_, AsmErrorV>(seq_vals(final(output)@)),
            Err(e) => patch_from(
                seq_vals(old(output)@),
                view_refs(label_refs@),
                view_labels(labels@),
                0,
            ) == Err::<Seq<u8>, _>(e@),
        },
{
    let ghost labelsv = view_labels(labels@);
    let ghost refsv = view_refs(label_refs@);
    let ghost out_closed = seq_vals(output@);
    let n_refs = label_refs.len();
    let mut k: usize = 0;
    while k < n_refs
        invariant
            n_refs == label_refs@.len(),
            k <= n_refs,
            labelsv == view_labels(labels@),
            refsv == view_refs(label_refs@),
            output@.len() == 256,
            out_closed == seq_vals(old(output)@),
            forall|q: int| 0 <= q < refsv.len() ==> ref_limit(#[trigger] refsv[q]) < 256,
            patch_from(out_closed, refsv, labelsv, 0) == patch_from(
                seq_vals(output@),
                refsv,
                labelsv,
                k as int,
            ),
        decreases n_refs - k,
    {
        let rf_addr = label_refs[k].addr;
        let rf_wide = label_refs[k].wide;
        let rf_linenum = label_refs[k].linenum;
        let ghost namev = refsv[k as int].name;
        let n_labels = labels.len();
        let mut li: usize = n_labels;
        let mut found: Option<usize> = None;
        proof {
            assert(labelsv.take(n_labels as int) =~= labelsv);
        }
        while li > 0 && found.is_none()
            invariant
                n_labels == labels@.len(),
                li <= n_labels,
                labelsv == view_labels(labels@),
                k < label_refs@.len(),
                refsv == view_refs(label_refs@),
                namev == refsv[k as int].name,
                match found {
                    Some(a) => lookup_label(labelsv, namev) == Some(a as int),
                    None => lookup_label(labelsv, namev) == lookup_label(
                        labelsv.take(li as int),
                        namev,
                    ),
                },
            decreases li,
        {
            let hit = bytes_eq(labels[li - 1].0.as_slice(), label_refs[k].name.as_slice());
            proof {
                assert(labelsv.take(li as int).last() == labelsv[li - 1]);
                assert(labelsv.take(li as int).drop_last() =~= labelsv.take(li as int - 1));
            }
            if hit {
                found = Some(labels[li - 1].1);
            }
            li -= 1;
        }
        match found {
            None => {
                proof {
                    assert(labelsv.take(0) =~= Seq::<(Seq<u8>, int)>::empty());
                }
                let snip = copy_bytes(&label_refs[k].name);
                return Err(
                    AsmError {
                        stage: Stage::CodeGen,
                        linenum: Some(rf_linenum),
                        code_snip: snip,
                        message: AsmMessage::LabelNotDefined,
                    },
                );
            },
            Some(a) => {
                let low = u4::from_low((a % 16) as u8);
                let high = u4::from_low(((a / 16) % 16) as u8);
                let ghost prev = seq_vals(output@);
                if rf_wide {
                    output[rf_addr] = high;
                    output[rf_addr + 1] = low;
                    proof {
                        assert(seq_vals(output@) =~= prev.update(
                            rf_addr as int,
                            addr_high(a as int),
                        ).update(rf_addr as int + 1, addr_low(a as int)));
                    }
                } else {
                    output[rf_addr] = low;
                    proof {
                        assert(seq_vals(output@) =~= prev.update(
                            rf_addr as int,
                            addr_low(a as int),
                        ));
                    }
                }
            },
        }
        k += 1;
    }
    proof {
        assert(patch_from(seq_vals(output@), refsv, labelsv, n_refs as int) == Ok::<
            Seq<u8>,
            AsmErrorV,
        >(seq_vals(output@)));
    }
    Ok(())
}

/// Generate the memory image from a token stream: place each origin's run,
/// record labels, then patch every label reference.
#[verifier::spinoff_prover]
#[verifier::rlimit(100)]
pub fn gencode(tokens: Vec<TokenLineNumPair>) -> (r: Result<[u4; 256], AsmError>)
    requires
        tokens@.len() < usize::MAX / 4,
    ensures
        match r {
            Ok(image) => gencode_spec(view_tokens(tokens@)) == Ok::<_, AsmErrorV>(
                seq_vals(image@),
            ),
            Err(e) => gencode_spec(view_tokens(tokens@)) == Err::<Seq<u8>, _>(e@),
        },
{
    let ghost toksv = view_tokens(tokens@);
    let mut output: [u4; 256] = array_fill_for_copy_types(u4::from_low(0));
    let mut data: Vec<u4> = Vec::new();
    let mut cur_start: u8 = 0;
    let mut cur_linenum: Option<usize> = None;
    let mut labels: Vec<(Vec<u8>, usize)> = Vec::new();
    let mut label_refs: Vec<LabelRef> = Vec::new();
    let mut orgs: Vec<Org> = Vec::new();
    let n = tokens.len();
    proof {
        assert(seq_vals(output@) =~= zero_image());
        assert(view_labels(labels@) =~= Seq::<(Seq<u8>, int)>::empty());
        assert(view_refs(label_refs@) =~= Seq::<RefV>::empty());
        assert(view_orgs(orgs@) =~= Seq::<OrgV>::empty());
        assert(seq_vals(data@) =~= Seq::<u8>::empty());
        assert(toksv.skip(0) =~= toksv);
    }
    let mut i: usize = 0;
    while i < n
        invariant
            n == tokens@.len(),
            n < usize::MAX / 4,
            toksv == view_tokens(tokens@),
            i <= n,
            data@.len() <= 2 * i,
            forall|k: int| 0 <= k < orgs@.len() ==> (#[trigger] orgs@[k]).start_addr
                + orgs@[k].size <= 256,
            forall|k: int| 0 <= k < label_refs@.len() ==> ref_limit(
                #[trigger] view_refs(label_refs@)[k],
            ) < 256 || ref_limit(view_refs(label_refs@)[k]) < cur_start + data@.len(),
            gen_fold(init_state(), toksv) == gen_fold(
                (GenStateV {
                    output: seq_vals(output@),
                    data: seq_vals(data@),
                    cur: (OrgV {
                        start: cur_start as int,
                        size: 0,
                        linenum: view_opt(cur_linenum),
                    }),
                    labels: view_labels(labels@),
                    refs: view_refs(label_refs@),
                    orgs: view_orgs(orgs@),
                }),
                toksv.skip(i as int),
            ),
        decreases n - i,
    {
        let ghost st = GenStateV {
            output: seq_vals(output@),
            data: seq_vals(data@),
            cur: OrgV { start: cur_start as int, size: 0, linenum: view_opt(cur_linenum) },
            labels: view_labels(labels@),
            refs: view_refs(label_refs@),
            orgs: view_orgs(orgs@),
        };
        proof {
            assert(toksv.skip(i as int)[0] == toksv[i as int]);
            assert(toksv.skip(i as int).drop_first() =~= toksv.skip(i as int + 1));
        }
        let linenum = tokens[i].linenum;
        match &tokens[i].token {
            LexToken::Org(start_addr) => {
                let start = *start_addr;
                match write_org(cur_start, cur_linenum, &data, &mut output, &orgs) {
                    Ok(org) => {
                        orgs.push(org);
                        data.clear();
                        cur_start = start;
                        cur_linenum = Some(linenum);
                        proof {
                            assert(view_orgs(orgs@) =~= st.orgs.push(
                                OrgV {
                                    start: st.cur.start,
                                    size: st.data.len() as int,
                                    linenum: st.cur.linenum,
                                },
                            ));
                            assert(seq_vals(data@) =~= Seq::<u8>::empty());
                        }
                    },
                    Err(e) => {
                        return Err(e);
                    },
                }
            },
            LexToken::Instruction(inst) => {
                let nib = inst.into_u4();
                data.push(nib);
                proof {
                    assert(seq_vals(data@) =~= st.data.push(nib.val()));
                }
            },
            LexToken::HexLiteral(v) => {
                let nib = *v;
                data.push(nib);
                proof {
                    assert(seq_vals(data@) =~= st.data.push(nib.val()));
                }
            },
            LexToken::LabelRef { name, wide } => {
                let wide = *wide;
                let name_c = copy_bytes(name);
                let addr = cur_start as usize + data.len();
                let newref = LabelRef { name: name_c, addr, wide, linenum };
                label_refs.push(newref);
                data.push(u4::from_low(0));
                if wide {
                    data.push(u4::from_low(0));
                }
                proof {
                    assert(view_refs(label_refs@) =~= st.refs.push(
                        RefV {
                            name: tokens@[i as int].token->LabelRef_name@,
                            addr: st.cur.start + st.data.len(),
                            wide: wide,
                            linenum: linenum as int,
                        },
                    ));
                    if wide {
                        assert(seq_vals(data@) =~= st.data.push(0).push(0));
                    } else {
                        assert(seq_vals(data@) =~= st.data.push(0));
                    }
                }
            },
            LexToken::LabelDef(name) => {
                let name_c = copy_bytes(name);
                let addr = cur_start as usize + data.len();
                labels.push((name_c, addr));
                proof {
                    assert(view_labels(labels@) =~= st.labels.push(
                        (tokens@[i as int].token->LabelDef_0@, st.cur.start + st.data.len()),
                    ));
                }
            },
        }
        i += 1;
    }
    proof {
        assert(toksv.skip(n as int) =~= Seq::<TokenLineNumPairV>::empty());
    }
    let ghost st_final = GenStateV {
        output: seq_vals(output@),
        data: seq_vals(data@),
        cur: OrgV { start: cur_start as int, size: 0, linenum: view_opt(cur_linenum) },
        labels: view_labels(labels@),
        refs: view_refs(label_refs@),
        orgs: view_orgs(orgs@),
    };
    match write_org(cur_start, cur_linenum, &data, &mut output, &orgs) {
        Ok(_) => {},
        Err(e) => {
            return Err(e);
        },
    }
    proof {
        assert(gen_fold(init_state(), toksv) == Ok::<GenStateV, AsmErrorV>(st_final));
        assert(close_org_v(st_final) is Ok);
        let st1 = close_org_v(st_final)->Ok_0;
        assert(st1.output == seq_vals(output@));
        assert(st1.refs == view_refs(label_refs@));
        assert(st1.labels == view_labels(labels@));
        assert(gencode_spec(toksv) == patch_from(
            seq_vals(output@),
            view_refs(label_refs@),
            view_labels(labels@),
            0,
        ));
        assert forall|q: int| 0 <= q < view_refs(label_refs@).len() implies ref_limit(
            #[trigger] view_refs(label_refs@)[q],
        ) < 256 by {
            assert(ref_limit(view_refs(label_refs@)[q]) < 256 || ref_limit(
                view_refs(label_refs@)[q],
            ) < cur_start + st_final.data.len());
        }
    }
    match resolve_labels(&mut output, &labels, &label_refs) {
        Ok(()) => {},
        Err(e) => {
            return Err(e);
        },
    }
    Ok(output)
}

} // verus!
