//! Edits of register definitions and instances.
use vstd::prelude::*;
use crate::edits::{Record, RecordView};
use crate::model::page::{Instance, InstanceView, OvrSrc, OvrSrcView, Page, PageView};
use crate::model::register::{
    DescBlocks, FieldDefView, RegItem, RegItemView, RegSrc, RegisterDef, RegisterDefView,
};
use crate::model::rif::{RifDef, RifDefView};
use crate::model::values::{
    Addr, AddrKind, AddrView, Desc, Dim, DimView, Expr, ExprView, External, InstMode, IntrInfoView, Offset,
    OffsetView, PulseView, Vis, WriteLock, WriteLockView,
};
use crate::reg_update::{
    extend_records, no_desc, no_records, note_reg, only_if, push_when, reg_after, reg_records, update_reg,
};
use crate::search::{first, lemma_first, lemma_same_first};
use crate::source::{
    def_named, find_def, find_inst, find_instance, find_page, find_regdef, get_reg, inst_at, inst_named,
    is_auto, lemma_locate_inst, locate_inst, locate_reg, page_named, page_places, reg_at, set_inst, set_page,
    set_reg, with_inst, with_page, with_reg,
};
use crate::stage_field::{fresh_field, join_field, new_field, with_new_field, Outcome};
use crate::syntax::{inst_decl, show_inst_decl};
use crate::vals::{RegDefVals, RegDefValsView};

verus! {

/// An address at a fixed place.
pub open spec fn absolute(addr: u64) -> AddrView {
    AddrView { kind: AddrKind::Absolute, offset: OffsetView::Value(addr) }
}

fn at_address(addr: u64) -> (r: Addr)
    ensures
        r@ == absolute(addr),
{
    Addr { kind: AddrKind::Absolute, offset: Offset::Value(addr) }
}

/// An instance that follows the new name of its type. An instance that bears the name of its
/// type follows with its own name too.
pub open spec fn retyped(i: InstanceView, old_name: Seq<char>, new_name: Seq<char>) -> InstanceView {
    if old_name != new_name && i.reg_type == old_name {
        InstanceView {
            inst_name: if i.inst_name == old_name {
                new_name
            } else {
                i.inst_name
            },
            reg_type: new_name,
            ..i
        }
    } else {
        i
    }
}

/// The instance in view after an edit of its register.
pub open spec fn viewed_after(
    i: InstanceView,
    orig_name: Seq<char>,
    v: RegDefValsView,
) -> InstanceView {
    let j = retyped(i, orig_name, v.name);
    match v.addr {
        Some(a) => InstanceView { addr: absolute(a), ..j },
        None => j,
    }
}

/// The instances of a page after an edit; `target` is the place of the one in view.
pub open spec fn instances_after(
    insts: Seq<InstanceView>,
    target: Option<int>,
    orig_name: Seq<char>,
    v: RegDefValsView,
) -> Seq<InstanceView> {
    Seq::new(
        insts.len(),
        |k: int|
            if target == Some(k) {
                viewed_after(insts[k], orig_name, v)
            } else {
                retyped(insts[k], orig_name, v.name)
            },
    )
}

/// The place of the instance in view on a page.
pub open spec fn target_on(target: Option<(int, int)>, pi: int) -> Option<int> {
    match target {
        Some((tp, ti)) if tp == pi => Some(ti),
        _ => None,
    }
}

/// The RIF with every instance after an edit.
pub open spec fn with_instances(
    rif: RifDefView,
    target: Option<(int, int)>,
    orig_name: Seq<char>,
    v: RegDefValsView,
) -> RifDefView {
    RifDefView {
        pages: Seq::new(
            rif.pages.len(),
            |pi: int|
                PageView {
                    instances: instances_after(
                        rif.pages[pi].instances,
                        target_on(target, pi),
                        orig_name,
                        v,
                    ),
                    ..rif.pages[pi]
                },
        ),
        ..rif
    }
}

/// The records for the instances whose declarations print differently, up to the `n`-th one.
pub open spec fn redeclared(before: Seq<InstanceView>, after: Seq<InstanceView>, n: int) -> Seq<RecordView>
    decreases n,
{
    if n <= 0 {
        seq![]
    } else {
        redeclared(before, after, n - 1) + match before[n - 1].decl_line {
            Some(line) => only_if(
                inst_decl(after[n - 1]) != inst_decl(before[n - 1]),
                RecordView::InstDirty(line),
            ),
            None => seq![],
        }
    }
}

/// The records for the instances of the first `n` pages.
pub open spec fn redeclared_on(before: Seq<PageView>, after: Seq<PageView>, n: int) -> Seq<RecordView>
    decreases n,
{
    if n <= 0 {
        seq![]
    } else {
        redeclared_on(before, after, n - 1) + redeclared(
            before[n - 1].instances,
            after[n - 1].instances,
            before[n - 1].instances.len() as int,
        )
    }
}

/// New values for a register definition and for the address of the instance in view. Every
/// instance of the register follows a new name, and every instance whose declaration changes is to
/// be saved.
#[verifier::opaque]
pub open spec fn update_reg_outcome(
    rif: RifDefView,
    orig_name: Seq<char>,
    inst_name: Seq<char>,
    v: RegDefValsView,
) -> Option<Outcome> {
    match locate_reg(rif, orig_name) {
        Some(at) => {
            let d = reg_at(rif, at);
            let target = locate_inst(rif, inst_name);
            let after = with_instances(
                with_reg(rif, at, reg_after(d, orig_name, v)),
                target,
                orig_name,
                v,
            );
            Some(
                Outcome {
                    rif: after,
                    records: reg_records(d, orig_name, v) + redeclared_on(
                        rif.pages,
                        after.pages,
                        rif.pages.len() as int,
                    ),
                },
            )
        },
        None => None,
    }
}

fn copy_instance(i: &Instance) -> (r: Instance)
    ensures
        r@ == i@,
{
    i.clone()
}

fn follow_type(i: &Instance, old_name: &String, new_name: &String) -> (r: Instance)
    ensures
        r@ == retyped(i@, old_name@, new_name@),
{
    let mut j = copy_instance(i);
    if *old_name != *new_name && i.reg_type == *old_name {
        if i.inst_name == *old_name {
            j.inst_name = new_name.clone();
        }
        j.reg_type = new_name.clone();
    }
    j
}

fn update_viewed(i: &Instance, orig_name: &String, v: &RegDefVals) -> (r: Instance)
    ensures
        r@ == viewed_after(i@, orig_name@, v@),
{
    let mut j = follow_type(i, orig_name, &v.name);
    if let Some(a) = v.addr {
        j.addr = at_address(a);
    }
    j
}

fn update_instances(
    insts: &Vec<Instance>,
    target: Option<usize>,
    orig_name: &String,
    v: &RegDefVals,
) -> (r: Vec<Instance>)
    ensures
        r.deep_view() == instances_after(
            insts.deep_view(),
            match target {
                Some(t) => Some(t as int),
                None => None,
            },
            orig_name@,
            v@,
        ),
{
    let ghost t = match target {
        Some(t) => Some(t as int),
        None => None,
    };
    let ghost want = instances_after(insts.deep_view(), t, orig_name@, v@);
    let mut r: Vec<Instance> = Vec::new();
    let mut i: usize = 0;
    while i < insts.len()
        invariant
            i <= insts@.len(),
            r@.len() == i,
            t == (match target {
                Some(t) => Some(t as int),
                None => None,
            }),
            want == instances_after(insts.deep_view(), t, orig_name@, v@),
            forall|k: int| 0 <= k < i ==> (#[trigger] r@[k])@ == want[k],
        decreases insts@.len() - i,
    {
        let here = match target {
            Some(x) => x == i,
            None => false,
        };
        if here {
            r.push(update_viewed(&insts[i], orig_name, v));
        } else {
            r.push(follow_type(&insts[i], orig_name, &v.name));
        }
        i += 1;
    }
    proof {
        assert(r.deep_view() =~= want);
    }
    r
}

fn note_redeclared(before: &Vec<Instance>, after: &Vec<Instance>, records: &mut Vec<Record>)
    requires
        before@.len() == after@.len(),
    ensures
        final(records).deep_view() == old(records).deep_view() + redeclared(
            before.deep_view(),
            after.deep_view(),
            before@.len() as int,
        ),
{
    let ghost start = records.deep_view();
    let mut i: usize = 0;
    proof {
        assert(start =~= start + redeclared(before.deep_view(), after.deep_view(), 0));
    }
    while i < before.len()
        invariant
            i <= before@.len() == after@.len(),
            records.deep_view() == start + redeclared(before.deep_view(), after.deep_view(), i as int),
        decreases before@.len() - i,
    {
        let ghost was = records.deep_view();
        proof {
            assert(before.deep_view()[i as int] == before@[i as int]@);
            assert(after.deep_view()[i as int] == after@[i as int]@);
        }
        if let Some(line) = before[i].decl_line {
            let changed = show_inst_decl(&after[i]) != show_inst_decl(&before[i]);
            push_when(records, changed, Record::InstDirty(line));
        }
        proof {
            assert(records.deep_view() =~= start + redeclared(before.deep_view(), after.deep_view(), i + 1));
        }
        i += 1;
    }
}

fn set_instances(rif: &mut RifDef, target: Option<(usize, usize)>, orig_name: &String, v: &RegDefVals) -> (r: Vec<
    Record,
>)
    ensures
        r.deep_view() == redeclared_on(old(rif)@.pages, final(rif)@.pages, old(rif)@.pages.len() as int),
        final(rif)@ == with_instances(
            old(rif)@,
            match target {
                Some((p, i)) => Some((p as int, i as int)),
                None => None,
            },
            orig_name@,
            v@,
        ),
{
    let ghost t = match target {
        Some((p, i)) => Some((p as int, i as int)),
        None => None,
    };
    let ghost start = rif@;
    let ghost want = with_instances(start, t, orig_name@, v@);
    let n: usize = rif.pages.len();
    let mut r = no_records();
    let mut pi: usize = 0;
    while pi < n
        invariant
            pi <= n == rif.pages@.len(),
            n == start.pages.len(),
            r.deep_view() == redeclared_on(start.pages, want.pages, pi as int),
            t == (match target {
                Some((p, i)) => Some((p as int, i as int)),
                None => None,
            }),
            want == with_instances(start, t, orig_name@, v@),
            rif@ == (RifDefView { pages: rif.pages.deep_view(), ..start }),
            forall|k: int| 0 <= k < pi ==> (#[trigger] rif.pages@[k])@ == want.pages[k],
            forall|k: int| pi <= k < n ==> (#[trigger] rif.pages@[k])@ == start.pages[k],
        decreases n - pi,
    {
        let here: Option<usize> = match target {
            Some((tp, ti)) => if tp == pi {
                Some(ti)
            } else {
                None
            },
            None => None,
        };
        let ghost page = rif.pages@[pi as int]@;
        let insts = update_instances(&rif.pages[pi].instances, here, orig_name, v);
        proof {
            assert(insts.deep_view().len() == insts@.len());
            assert(page.instances.len() == rif.pages@[pi as int].instances@.len());
        }
        note_redeclared(&rif.pages[pi].instances, &insts, &mut r);
        rif.pages[pi].instances = insts;
        proof {
            assert(rif.pages@[pi as int]@ == (PageView {
                instances: instances_after(page.instances, target_on(t, pi as int), orig_name@, v@),
                ..page
            }));
        }
        pi += 1;
    }
    proof {
        assert(rif.pages.deep_view() =~= want.pages);
    }
    r
}

/// The instances that are to be saved do not depend on the definitions.
proof fn lemma_redeclared_on(a: Seq<PageView>, b: Seq<PageView>, after: Seq<PageView>, n: int)
    requires
        0 <= n <= a.len() == b.len(),
        forall|p: int| 0 <= p < n ==> (#[trigger] a[p]).instances == b[p].instances,
    ensures
        redeclared_on(a, after, n) == redeclared_on(b, after, n),
    decreases n,
{
    if n > 0 {
        lemma_redeclared_on(a, b, after, n - 1);
        assert(a[n - 1].instances == b[n - 1].instances);
    }
}

/// Applies new values to a register definition and the instance in view.
pub fn stage_update_reg(rif: &mut RifDef, orig_name: &String, inst_name: &String, v: &RegDefVals) -> (r: Option<
    Vec<Record>,
>)
    ensures
        match update_reg_outcome(old(rif)@, orig_name@, inst_name@, v@) {
            Some(o) => r is Some && final(rif)@ == o.rif && (r->0).deep_view() == o.records,
            None => r is None && final(rif)@ == old(rif)@,
        },
{
    proof {
        reveal(update_reg_outcome);
    }
    let at = match find_regdef(rif, orig_name) {
        Some(at) => at,
        None => {
            return None;
        },
    };
    let target = find_inst(rif, inst_name);
    let d = get_reg(rif, at);
    let after = update_reg(d, orig_name, v);
    let mut records = note_reg(d, &after, orig_name, v);
    let ghost start = rif@;
    set_reg(rif, at, after);
    let ghost base = rif@;
    extend_records(&mut records, set_instances(rif, target, orig_name, v));
    proof {
        lemma_redeclared_on(start.pages, base.pages, rif@.pages, start.pages.len() as int);
    }
    Some(records)
}

/// A new address for another instance.
#[derive(Debug)]
pub struct Companion {
    /// Instance.
    pub name: String,
    /// New absolute address.
    pub addr: u64,
}

/// The value of a [`Companion`].
pub struct CompanionView {
    pub name: Seq<char>,
    pub addr: u64,
}

impl DeepView for Companion {
    type V = CompanionView;

    open spec fn deep_view(&self) -> CompanionView {
        CompanionView { name: self.name@, addr: self.addr }
    }
}

/// The RIF after the first `n` companions got their addresses.
pub open spec fn companions_moved(rif: RifDefView, cs: Seq<CompanionView>, n: int) -> RifDefView
    decreases n,
{
    if n <= 0 {
        rif
    } else {
        let s = companions_moved(rif, cs, n - 1);
        match locate_inst(s, cs[n - 1].name) {
            Some(at) => with_inst(
                s,
                at,
                InstanceView { addr: absolute(cs[n - 1].addr), ..inst_at(s, at) },
            ),
            None => s,
        }
    }
}

/// What is to be saved of the first `n` companions.
pub open spec fn companion_records(rif: RifDefView, cs: Seq<CompanionView>, n: int) -> Seq<RecordView>
    decreases n,
{
    if n <= 0 {
        seq![]
    } else {
        let s = companions_moved(rif, cs, n - 1);
        companion_records(rif, cs, n - 1) + match locate_inst(s, cs[n - 1].name) {
            Some(at) => match inst_at(s, at).decl_line {
                Some(line) => seq![RecordView::InstDirty(line)],
                None => seq![],
            },
            None => seq![],
        }
    }
}

/// Gives companions their addresses.
fn move_companions(rif: &mut RifDef, cs: &Vec<Companion>) -> (r: Vec<Record>)
    ensures
        final(rif)@ == companions_moved(old(rif)@, cs.deep_view(), cs@.len() as int),
        r.deep_view() == companion_records(old(rif)@, cs.deep_view(), cs@.len() as int),
{
    let ghost start = rif@;
    let ghost views = cs.deep_view();
    let mut r = no_records();
    let mut i: usize = 0;
    while i < cs.len()
        invariant
            i <= cs@.len(),
            views == cs.deep_view(),
            rif@ == companions_moved(start, views, i as int),
            r.deep_view() == companion_records(start, views, i as int),
        decreases cs@.len() - i,
    {
        let ghost was = r.deep_view();
        proof {
            assert(views[i as int] == cs@[i as int].deep_view());
        }
        let found = find_inst(rif, &cs[i].name);
        if let Some((p, k)) = found {
            let mut inst = copy_instance(&rif.pages[p].instances[k]);
            proof {
                assert(inst@ == inst_at(rif@, (p as int, k as int)));
            }
            inst.addr = at_address(cs[i].addr);
            if let Some(line) = inst.decl_line {
                push_when(&mut r, true, Record::InstDirty(line));
            }
            set_inst(rif, (p, k), inst);
        }
        proof {
            assert(r.deep_view() =~= companion_records(start, views, i + 1));
        }
        i += 1;
    }
    r
}

/// New values for a register definition, with other instances moved at the same time.
#[verifier::opaque]
pub open spec fn update_reg_with_moves_outcome(
    rif: RifDefView,
    orig_name: Seq<char>,
    inst_name: Seq<char>,
    v: RegDefValsView,
    cs: Seq<CompanionView>,
) -> Option<Outcome> {
    match update_reg_outcome(rif, orig_name, inst_name, v) {
        Some(o) => Some(
            Outcome {
                rif: companions_moved(o.rif, cs, cs.len() as int),
                records: o.records + companion_records(o.rif, cs, cs.len() as int),
            },
        ),
        None => None,
    }
}

/// Applies new values to a register definition and moves other instances.
pub fn stage_update_reg_with_moves(
    rif: &mut RifDef,
    orig_name: &String,
    inst_name: &String,
    v: &RegDefVals,
    cs: &Vec<Companion>,
) -> (r: Option<Vec<Record>>)
    ensures
        match update_reg_with_moves_outcome(
            old(rif)@,
            orig_name@,
            inst_name@,
            v@,
            cs.deep_view(),
        ) {
            Some(o) => r is Some && final(rif)@ == o.rif && (r->0).deep_view() == o.records,
            None => r is None && final(rif)@ == old(rif)@,
        },
{
    proof {
        reveal(update_reg_with_moves_outcome);
    }
    match stage_update_reg(rif, orig_name, inst_name, v) {
        Some(records) => {
            let mut records = records;
            extend_records(&mut records, move_companions(rif, cs));
            Some(records)
        },
        None => None,
    }
}

/// No expression.
pub open spec fn no_expr() -> ExprView {
    ExprView { text: seq![], rif: seq![] }
}

/// Another array size for one instance, with other instances moved at the same time.
#[verifier::opaque]
pub open spec fn inst_array_outcome(
    rif: RifDefView,
    inst_name: Seq<char>,
    array: Option<ExprView>,
    cs: Seq<CompanionView>,
) -> Option<Outcome> {
    match locate_inst(rif, inst_name) {
        Some(at) => {
            let before = inst_at(rif, at);
            let after = InstanceView {
                array: match array {
                    Some(e) => e,
                    None => no_expr(),
                },
                ..before
            };
            let changed = with_inst(rif, at, after);
            Some(
                Outcome {
                    rif: companions_moved(changed, cs, cs.len() as int),
                    records: (match before.decl_line {
                        Some(line) => only_if(
                            inst_decl(after) != inst_decl(before),
                            RecordView::InstDirty(line),
                        ),
                        None => seq![],
                    }) + companion_records(changed, cs, cs.len() as int),
                },
            )
        },
        None => None,
    }
}

/// Sets the array size of one instance and moves other instances.
pub fn stage_inst_array(
    rif: &mut RifDef,
    inst_name: &String,
    array: Option<Expr>,
    cs: &Vec<Companion>,
) -> (r: Option<Vec<Record>>)
    ensures
        match inst_array_outcome(old(rif)@, inst_name@, array.deep_view(), cs.deep_view()) {
            Some(o) => r is Some && final(rif)@ == o.rif && (r->0).deep_view() == o.records,
            None => r is None && final(rif)@ == old(rif)@,
        },
{
    proof {
        reveal(inst_array_outcome);
    }
    let at = match find_inst(rif, inst_name) {
        Some(at) => at,
        None => {
            return None;
        },
    };
    let before = copy_instance(&rif.pages[at.0].instances[at.1]);
    proof {
        assert(before@ == inst_at(rif@, (at.0 as int, at.1 as int)));
    }
    let mut after = copy_instance(&before);
    after.array = match array {
        Some(e) => e,
        None => Expr { text: String::new(), rif: String::new() },
    };
    let mut records = no_records();
    if let Some(line) = before.decl_line {
        let changed = show_inst_decl(&after) != show_inst_decl(&before);
        push_when(&mut records, changed, Record::InstDirty(line));
        proof {
            assert(records.deep_view() =~= only_if(changed, RecordView::InstDirty(line)));
        }
    }
    set_inst(rif, at, after);
    extend_records(&mut records, move_companions(rif, cs));
    Some(records)
}

/// What is to be saved of an instance whose address changed.
pub open spec fn readdressed(i: InstanceView) -> Seq<RecordView> {
    match i.decl_line {
        Some(line) => seq![RecordView::InstDirty(line)],
        None => seq![],
    }
}

/// Two instances with their addresses exchanged.
#[verifier::opaque]
pub open spec fn swap_outcome(rif: RifDefView, a: Seq<char>, b: Seq<char>) -> Option<Outcome> {
    match (locate_inst(rif, a), locate_inst(rif, b)) {
        (Some(at_a), Some(at_b)) => {
            let (ia, ib) = (inst_at(rif, at_a), inst_at(rif, at_b));
            let once = with_inst(rif, at_a, InstanceView { addr: ib.addr, ..ia });
            Some(
                Outcome {
                    rif: with_inst(
                        once,
                        at_b,
                        InstanceView { addr: ia.addr, ..inst_at(once, at_b) },
                    ),
                    records: readdressed(ia) + readdressed(ib),
                },
            )
        },
        _ => None,
    }
}

/// Exchanges the addresses of two instances.
pub fn stage_swap(rif: &mut RifDef, a: &String, b: &String) -> (r: Option<Vec<Record>>)
    ensures
        match swap_outcome(old(rif)@, a@, b@) {
            Some(o) => r is Some && final(rif)@ == o.rif && (r->0).deep_view() == o.records,
            None => r is None && final(rif)@ == old(rif)@,
        },
{
    proof {
        reveal(swap_outcome);
    }
    let at_a = match find_inst(rif, a) {
        Some(at) => at,
        None => {
            return None;
        },
    };
    let at_b = match find_inst(rif, b) {
        Some(at) => at,
        None => {
            return None;
        },
    };
    let mut ia = copy_instance(&rif.pages[at_a.0].instances[at_a.1]);
    let ib = copy_instance(&rif.pages[at_b.0].instances[at_b.1]);
    let old_addr = ia.addr.clone();
    let mut records = no_records();
    if let Some(line) = ia.decl_line {
        push_when(&mut records, true, Record::InstDirty(line));
    }
    if let Some(line) = ib.decl_line {
        push_when(&mut records, true, Record::InstDirty(line));
    }
    proof {
        assert(ia@ == inst_at(rif@, (at_a.0 as int, at_a.1 as int)));
        assert(ib@ == inst_at(rif@, (at_b.0 as int, at_b.1 as int)));
        assert(records.deep_view() =~= readdressed(ia@) + readdressed(ib@));
    }
    ia.addr = ib.addr.clone();
    set_inst(rif, at_a, ia);
    proof {
        let once = rif@;
        assert(once.pages[at_b.0 as int].instances.len() == rif.pages@[at_b.0 as int].instances@.len());
    }
    let mut jb = copy_instance(&rif.pages[at_b.0].instances[at_b.1]);
    proof {
        assert(jb@ == inst_at(rif@, (at_b.0 as int, at_b.1 as int)));
    }
    jb.addr = old_addr;
    set_inst(rif, at_b, jb);
    Some(records)
}

proof fn lemma_located_again(before: RifDefView, after: RifDefView, name: Seq<char>)
    requires
        before.pages.len() == after.pages.len(),
        forall|p: int|
            0 <= p < before.pages.len() ==> (#[trigger] after.pages[p]).instances.len()
                == before.pages[p].instances.len(),
        forall|p: int, k: int|
            0 <= p < before.pages.len() && 0 <= k < before.pages[p].instances.len() ==> (
            #[trigger] after.pages[p].instances[k]).inst_name == before.pages[p].instances[k].inst_name,
    ensures
        locate_inst(after, name) == locate_inst(before, name),
{
    let q = inst_named(name);
    assert forall|p: int| 0 <= p < before.pages.len() implies first((#[trigger] after.pages[p]).instances, q)
        == first(before.pages[p].instances, q) by {
        assert forall|k: int| 0 <= k < before.pages[p].instances.len() implies q(after.pages[p].instances[k])
            == q(#[trigger] before.pages[p].instances[k]) by {}
        lemma_same_first(before.pages[p].instances, after.pages[p].instances, q);
    }
    lemma_same_first(before.pages, after.pages, page_places(name));
    lemma_first(before.pages, page_places(name));
}

/// Exchanging the addresses of two instances twice gives the source back.
pub proof fn swapping_twice_restores(rif: RifDefView, a: Seq<char>, b: Seq<char>)
    requires
        swap_outcome(rif, a, b) is Some,
    ensures
        swap_outcome(swap_outcome(rif, a, b)->0.rif, a, b) is Some,
        swap_outcome(swap_outcome(rif, a, b)->0.rif, a, b)->0.rif == rif,
{
    reveal(swap_outcome);
    lemma_locate_inst(rif, a);
    lemma_locate_inst(rif, b);
    let once = swap_outcome(rif, a, b)->0.rif;
    lemma_located_again(rif, once, a);
    lemma_located_again(rif, once, b);
    let twice = swap_outcome(once, a, b)->0.rif;
    assert forall|p: int| 0 <= p < rif.pages.len() implies (#[trigger] twice.pages[p]) == rif.pages[p] by {
        assert(twice.pages[p].instances =~= rif.pages[p].instances);
    }
    assert(twice.pages =~= rif.pages);
}

/// The page with the instances of a conversion to explicit addresses.
#[verifier::opaque]
pub open spec fn convert_outcome(
    rif: RifDefView,
    page_name: Seq<char>,
    instances: Seq<InstanceView>,
) -> Option<Outcome> {
    match first(rif.pages, page_named(page_name)) {
        Some(pi) => Some(
            Outcome {
                rif: with_page(
                    rif,
                    pi,
                    PageView { instances, inst_auto: InstMode::Manual, ..rif.pages[pi] },
                ),
                records: seq![],
            },
        ),
        None => None,
    }
}

/// Gives a page explicit addresses.
pub fn stage_convert(rif: &mut RifDef, page_name: &String, instances: Vec<Instance>) -> (r: bool)
    ensures
        match convert_outcome(old(rif)@, page_name@, instances.deep_view()) {
            Some(o) => r && final(rif)@ == o.rif && o.records == Seq::<RecordView>::empty(),
            None => !r && final(rif)@ == old(rif)@,
        },
{
    proof {
        reveal(convert_outcome);
    }
    match find_page(&rif.pages, page_name) {
        Some(pi) => {
            let ghost before = rif@;
            rif.pages[pi].instances = instances;
            rif.pages[pi].inst_auto = InstMode::Manual;
            proof {
                assert(rif.pages.deep_view() =~= before.pages.update(
                    pi as int,
                    rif.pages@[pi as int]@,
                ));
            }
            true
        },
        None => false,
    }
}

/// What kind of register is created.
#[derive(Debug)]
pub enum AddRegKind {
    /// A new register type with one field and, on a page with explicit addresses, its instance.
    New,
    /// A new instance of a type of the page.
    Instance { reg_type: String },
}

/// The value of an [`AddRegKind`].
pub enum AddRegKindView {
    New,
    Instance { reg_type: Seq<char> },
}

impl DeepView for AddRegKind {
    type V = AddRegKindView;

    open spec fn deep_view(&self) -> AddRegKindView {
        match self {
            AddRegKind::New => AddRegKindView::New,
            AddRegKind::Instance { reg_type } => AddRegKindView::Instance { reg_type: reg_type@ },
        }
    }
}

impl View for AddRegKind {
    type V = AddRegKindView;

    open spec fn view(&self) -> AddRegKindView {
        self.deep_view()
    }
}

/// A register definition as it is created, with one field.
pub open spec fn new_reg(name: Seq<char>) -> RegisterDefView {
    with_new_field(
        RegisterDefView {
            name,
            group_name: name,
            group_pkg: None,
            description: no_desc(),
            pulse: seq![],
            fields: seq![],
            interrupt: seq![],
            visibility: Vis::Full,
            clk: None,
            rst: None,
            lock: WriteLockView::Open,
            array: DimView::Value(0),
            external: External::Internal,
            src: unsaved_reg(),
        },
        new_field("field0"@),
    )
}

/// The source position of a register that is not in the file yet.
pub open spec fn unsaved_reg() -> RegSrc {
    RegSrc {
        decl_line: None,
        has_inline_desc: true,
        prop_lines: [None, None, None, None, None, None, None, None, None, None],
        desc_blocks: DescBlocks { public: None, intr_enable: None, intr_mask: None, intr_pending: None },
    }
}

/// An instance as it is created.
pub open spec fn new_inst(
    name: Seq<char>,
    reg_type: Seq<char>,
    group_name: Seq<char>,
    addr: u64,
) -> InstanceView {
    InstanceView {
        inst_name: name,
        reg_type,
        group_name,
        addr: absolute(addr),
        array: no_expr(),
        reg_override: None,
        ovr_src: OvrSrcView { prop_lines: [None, None, None, None], desc_block: None, fields: seq![] },
        decl_line: None,
    }
}

/// The page with a new register. A new definition needs an instance only where the addresses
/// are explicit.
pub open spec fn page_with_reg(
    p: PageView,
    kind: AddRegKindView,
    name: Seq<char>,
    addr: u64,
) -> PageView {
    match kind {
        AddRegKindView::New => PageView {
            registers: p.registers.push(RegItemView::Def(new_reg(name))),
            instances: if is_auto(p) {
                p.instances
            } else {
                p.instances.push(new_inst(name, name, seq![], addr))
            },
            ..p
        },
        AddRegKindView::Instance { reg_type } => PageView {
            instances: p.instances.push(new_inst(name, reg_type, name, addr)),
            ..p
        },
    }
}

/// A new register on a page.
#[verifier::opaque]
pub open spec fn add_reg_outcome(
    rif: RifDefView,
    page_name: Seq<char>,
    kind: AddRegKindView,
    name: Seq<char>,
    addr: u64,
) -> Option<Outcome> {
    match first(rif.pages, page_named(page_name)) {
        Some(pi) => Some(
            Outcome {
                rif: with_page(rif, pi, page_with_reg(rif.pages[pi], kind, name, addr)),
                records: seq![],
            },
        ),
        None => None,
    }
}

fn fresh_reg(name: &String) -> (r: RegisterDef)
    ensures
        r@ == new_reg(name@),
{
    let mut r = RegisterDef {
        name: name.clone(),
        group_name: name.clone(),
        group_pkg: None,
        description: Desc { public: String::new(), private: String::new() },
        pulse: Vec::new(),
        fields: Vec::new(),
        interrupt: Vec::new(),
        visibility: Vis::Full,
        clk: None,
        rst: None,
        lock: WriteLock::Open,
        array: Dim::Value(0),
        external: External::Internal,
        src: RegSrc {
            decl_line: None,
            has_inline_desc: true,
            prop_lines: [None; 10],
            desc_blocks: DescBlocks { public: None, intr_enable: None, intr_mask: None, intr_pending: None },
        },
    };
    proof {
        assert(r.pulse.deep_view() =~= Seq::<PulseView>::empty());
        assert(r.fields.deep_view() =~= Seq::<FieldDefView>::empty());
        assert(r.interrupt.deep_view() =~= Seq::<IntrInfoView>::empty());
        assert(r.src.prop_lines =~= unsaved_reg().prop_lines);
    }
    join_field(&mut r, fresh_field("field0".to_owned()));
    r
}

fn fresh_inst(name: &String, reg_type: &String, group_name: String, addr: u64) -> (r: Instance)
    ensures
        r@ == new_inst(name@, reg_type@, group_name@, addr),
{
    let ovr_src = OvrSrc { prop_lines: [None; 4], desc_block: None, fields: Vec::new() };
    let r = Instance {
        inst_name: name.clone(),
        reg_type: reg_type.clone(),
        group_name,
        addr: at_address(addr),
        array: Expr { text: String::new(), rif: String::new() },
        reg_override: None,
        ovr_src,
        decl_line: None,
    };
    proof {
        let none = new_inst(name@, reg_type@, group_name@, addr).ovr_src;
        assert(r.ovr_src.fields.deep_view() =~= none.fields);
        assert(r.ovr_src.prop_lines =~= none.prop_lines);
    }
    r
}

/// Whether the registers of a page get their addresses in order.
pub fn page_is_auto(p: &Page) -> (r: bool)
    ensures
        r == is_auto(p@),
{
    match p.inst_auto {
        InstMode::Manual => false,
        _ => true,
    }
}

/// Creates a register on a page.
pub fn stage_add_reg(
    rif: &mut RifDef,
    page_name: &String,
    kind: &AddRegKind,
    name: &String,
    addr: u64,
) -> (r: bool)
    ensures
        match add_reg_outcome(old(rif)@, page_name@, kind@, name@, addr) {
            Some(o) => r && final(rif)@ == o.rif && o.records == Seq::<RecordView>::empty(),
            None => !r && final(rif)@ == old(rif)@,
        },
{
    proof {
        reveal(add_reg_outcome);
    }
    let pi: usize = match find_page(&rif.pages, page_name) {
        Some(pi) => pi,
        None => {
            return false;
        },
    };
    let mut p = rif.pages[pi].clone();
    let ghost before = p@;
    match kind {
        AddRegKind::New => {
            let auto = page_is_auto(&p);
            p.registers.push(RegItem::Def(fresh_reg(name)));
            proof {
                assert(p.registers.deep_view() =~= before.registers.push(
                    RegItemView::Def(new_reg(name@)),
                ));
            }
            if !auto {
                p.instances.push(fresh_inst(name, name, String::new(), addr));
                proof {
                    assert(p.instances.deep_view() =~= before.instances.push(
                        new_inst(name@, name@, seq![], addr),
                    ));
                }
            }
        },
        AddRegKind::Instance { reg_type } => {
            p.instances.push(fresh_inst(name, reg_type, name.clone(), addr));
            proof {
                assert(p.instances.deep_view() =~= before.instances.push(
                    new_inst(name@, reg_type@, name@, addr),
                ));
            }
        },
    }
    proof {
        assert(before == rif@.pages[pi as int]);
    }
    set_page(rif, pi, p);
    true
}

/// Whether an instance of the type is left.
pub open spec fn references(insts: Seq<InstanceView>, reg_type: Seq<char>) -> bool {
    exists|i: int| 0 <= i < insts.len() && (#[trigger] insts[i]).reg_type == reg_type
}

/// The place of the instance to delete.
pub open spec fn doomed_inst(p: PageView, inst_name: Option<Seq<char>>) -> Option<int> {
    match inst_name {
        Some(n) => first(p.instances, inst_named(n)),
        None => None,
    }
}

/// The page without the instance to delete.
pub open spec fn page_without_inst(p: PageView, inst_name: Option<Seq<char>>) -> PageView {
    match doomed_inst(p, inst_name) {
        Some(i) => PageView { instances: p.instances.remove(i), ..p },
        None => p,
    }
}

/// The place of the definition to delete: it goes once nothing on the page instantiates it.
pub open spec fn doomed_def(
    p: PageView,
    reg_type: Seq<char>,
    inst_name: Option<Seq<char>>,
) -> Option<int> {
    if references(page_without_inst(p, inst_name).instances, reg_type) {
        None
    } else {
        first(p.registers, def_named(reg_type))
    }
}

/// A register less on a page.
#[verifier::opaque]
pub open spec fn delete_reg_outcome(
    rif: RifDefView,
    page_name: Seq<char>,
    reg_type: Seq<char>,
    inst_name: Option<Seq<char>>,
) -> Option<Outcome> {
    match first(rif.pages, page_named(page_name)) {
        Some(pi) => {
            let p = rif.pages[pi];
            let inst = doomed_inst(p, inst_name);
            let def = doomed_def(p, reg_type, inst_name);
            let q = page_without_inst(p, inst_name);
            if inst is None && def is None {
                None
            } else {
                Some(
                    Outcome {
                        rif: with_page(
                            rif,
                            pi,
                            match def {
                                Some(k) => PageView { registers: p.registers.remove(k), ..q },
                                None => q,
                            },
                        ),
                        records: (match def {
                            Some(k) => match p.registers[k]->Def_0.src.decl_line {
                                Some(line) => seq![RecordView::RegDeleted(line)],
                                None => seq![],
                            },
                            None => seq![],
                        }) + (match inst {
                            Some(k) => match p.instances[k].decl_line {
                                Some(line) => seq![RecordView::InstDeleted(line)],
                                None => seq![],
                            },
                            None => seq![],
                        }),
                    },
                )
            }
        },
        None => None,
    }
}

fn still_referenced(insts: &Vec<Instance>, reg_type: &String) -> (r: bool)
    ensures
        r == references(insts.deep_view(), reg_type@),
{
    let mut i: usize = 0;
    while i < insts.len()
        invariant
            i <= insts@.len(),
            forall|k: int| 0 <= k < i ==> (#[trigger] insts.deep_view()[k]).reg_type != reg_type@,
        decreases insts@.len() - i,
    {
        if insts[i].reg_type == *reg_type {
            proof {
                assert(insts.deep_view()[i as int].reg_type == reg_type@);
            }
            return true;
        }
        i += 1;
    }
    false
}

/// Deletes an instance, and the definition with its last instance.
pub fn stage_delete_reg(
    rif: &mut RifDef,
    page_name: &String,
    reg_type: &String,
    inst_name: &Option<String>,
) -> (r: Option<Vec<Record>>)
    ensures
        match delete_reg_outcome(old(rif)@, page_name@, reg_type@, inst_name.deep_view()) {
            Some(o) => r is Some && final(rif)@ == o.rif && (r->0).deep_view() == o.records,
            None => r is None && final(rif)@ == old(rif)@,
        },
{
    proof {
        reveal(delete_reg_outcome);
    }
    let pi: usize = match find_page(&rif.pages, page_name) {
        Some(pi) => pi,
        None => {
            return None;
        },
    };
    let mut p = rif.pages[pi].clone();
    let ghost before = p@;
    proof {
        assert(before == rif@.pages[pi as int]);
    }
    let mut def_gone = no_records();
    let mut inst_gone = no_records();
    let mut any = false;
    let doomed: Option<usize> = match inst_name {
        Some(n) => find_instance(&p.instances, n),
        None => None,
    };
    if let Some(k) = doomed {
        any = true;
        let inst = p.instances.remove(k);
        proof {
            assert(p.instances.deep_view() =~= before.instances.remove(k as int));
            assert(inst@ == before.instances[k as int]);
        }
        if let Some(line) = inst.decl_line {
            push_when(&mut inst_gone, true, Record::InstDeleted(line));
            proof {
                assert(inst_gone.deep_view() =~= seq![RecordView::InstDeleted(line)]);
            }
        }
    }
    proof {
        assert(p@ == page_without_inst(before, inst_name.deep_view()));
        lemma_first(before.registers, def_named(reg_type@));
    }
    if !still_referenced(&p.instances, reg_type) {
        let found = find_def(&p.registers, reg_type);
        if let Some(k) = found {
            any = true;
            let item = p.registers.remove(k);
            proof {
                assert(p.registers.deep_view() =~= before.registers.remove(k as int));
                assert(item@ == before.registers[k as int]);
            }
            if let RegItem::Def(d) = &item {
                if let Some(line) = d.src.decl_line {
                    push_when(&mut def_gone, true, Record::RegDeleted(line));
                    proof {
                        assert(def_gone.deep_view() =~= seq![RecordView::RegDeleted(line)]);
                    }
                }
            }
        }
    }
    if !any {
        return None;
    }
    set_page(rif, pi, p);
    let mut records = def_gone;
    extend_records(&mut records, inst_gone);
    Some(records)
}

} // verus!
