//! The variable layout resolver: assigns every parameter and every
//! declared local of one function a stack-frame offset.
//!
//! Parameters receive negative offsets `-16, -24, ...` in declaration
//! order; locals receive positive offsets `8, 16, ...` in the order
//! their declarations appear, scanned in document order including the
//! bodies of nested conditionals and loops (the language has one flat,
//! unscoped namespace per function).  Declaring a name twice is
//! rejected with [`CodegenError::DuplicateDeclaration`].

use vstd::prelude::*;
use crate::errors::{CodegenError, ErrV};
use crate::ir::{
    FuncV, IRNode, NodeV, ParamV, IRFunction, node_seq_view, node_view, stmts_view,
    param_seq_view, lemma_node_seq_view_props, lemma_stmts_view_props, lemma_param_seq_view_props,
};

verus! {

/// Stores the stack-frame offset for every variable of the function
/// currently being lowered.
#[derive(Debug, PartialEq)]
pub struct VariableOffsets {
    entries: Vec<(String, i64)>,
}

/// The mapping that a sequence of (name, offset) entries denotes; a
/// later entry for the same name wins.
spec fn entries_map(s: Seq<(String, i64)>) -> Map<Seq<char>, int>
    decreases s.len(),
{
    if s.len() == 0 {
        Map::empty()
    } else {
        entries_map(s.drop_last()).insert(s.last().0@, s.last().1 as int)
    }
}

proof fn lemma_entries_map_at(s: Seq<(String, i64)>, i: int)
    requires
        0 <= i < s.len(),
        forall|j: int| i < j < s.len() ==> s[j].0@ != s[i].0@,
    ensures
        entries_map(s).contains_key(s[i].0@),
        entries_map(s)[s[i].0@] == s[i].1 as int,
    decreases s.len(),
{
    if i < s.len() - 1 {
        lemma_entries_map_at(s.drop_last(), i);
    }
}

proof fn lemma_entries_map_absent(s: Seq<(String, i64)>, k: Seq<char>)
    requires
        forall|j: int| 0 <= j < s.len() ==> s[j].0@ != k,
    ensures
        !entries_map(s).contains_key(k),
    decreases s.len(),
{
    if s.len() > 0 {
        lemma_entries_map_absent(s.drop_last(), k);
    }
}

impl VariableOffsets {
    /// Every stored offset admits negation without overflow; the code
    /// generator renders negative offsets as positive displacements.
    pub closed spec fn wf(self) -> bool {
        forall|i: int| 0 <= i < self.entries@.len() ==> #[trigger] self.entries@[i].1 != i64::MIN
    }

    pub fn new() -> (r: VariableOffsets)
        ensures
            r@ == Map::<Seq<char>, int>::empty(),
            r.wf(),
    {
        VariableOffsets { entries: Vec::new() }
    }

    /// Maps `name` to `offset`, replacing any earlier entry.
    pub fn insert(&mut self, name: String, offset: i64)
        requires
            old(self).wf(),
            offset != i64::MIN,
        ensures
            final(self)@ == old(self)@.insert(name@, offset as int),
            final(self).wf(),
    {
        self.entries.push((name, offset));
        proof {
            assert(self.entries@.drop_last() =~= old(self).entries@);
        }
    }

    /// Looks the offset of `name` up.
    pub fn get(&self, name: &String) -> (r: Option<i64>)
        requires
            self.wf(),
        ensures
            match r {
                Some(v) => self@.contains_key(name@) && v as int == self@[name@] && v
                    != i64::MIN,
                None => !self@.contains_key(name@),
            },
    {
        let mut idx: usize = self.entries.len();
        while idx > 0
            invariant
                idx <= self.entries@.len(),
                self.wf(),
                forall|j: int| idx <= j < self.entries@.len() ==> self.entries@[j].0@ != name@,
            decreases idx,
        {
            idx = idx - 1;
            if self.entries[idx].0.eq(name) {
                proof {
                    lemma_entries_map_at(self.entries@, idx as int);
                }
                return Some(self.entries[idx].1);
            }
        }
        proof {
            lemma_entries_map_absent(self.entries@, name@);
        }
        None
    }
}

impl View for VariableOffsets {
    type V = Map<Seq<char>, int>;

    closed spec fn view(&self) -> Map<Seq<char>, int> {
        entries_map(self.entries@)
    }
}

/// The views of a sequence of owned names.
pub open spec fn names_view(s: Seq<String>) -> Seq<Seq<char>>
    decreases s,
{
    if s.len() == 0 {
        Seq::empty()
    } else {
        names_view(s.drop_last()).push(s.last()@)
    }
}

pub broadcast proof fn lemma_names_view_props(s: Seq<String>)
    ensures
        #[trigger] names_view(s).len() == s.len(),
        forall|i: int| 0 <= i < s.len() ==> #[trigger] names_view(s)[i] == s[i]@,
    decreases s,
{
    if s.len() > 0 {
        lemma_names_view_props(s.drop_last());
    }
}

/// The names declared by one statement, in document order, descending
/// into the bodies of conditionals and loops.
pub open spec fn decls_of_node(n: NodeV) -> Seq<Seq<char>>
    decreases n,
{
    match n {
        NodeV::DeclareVariable(name, t) => seq![name],
        NodeV::Conditional(c, body) => decls_of_stmts(body),
        NodeV::Loop(c, body) => decls_of_stmts(body),
        _ => Seq::empty(),
    }
}

pub open spec fn decls_of_stmt(s: Seq<NodeV>) -> Seq<Seq<char>>
    decreases s,
{
    if s.len() == 0 {
        Seq::empty()
    } else {
        decls_of_stmt(s.drop_last()) + decls_of_node(s.last())
    }
}

pub open spec fn decls_of_stmts(s: Seq<Seq<NodeV>>) -> Seq<Seq<char>>
    decreases s,
{
    if s.len() == 0 {
        Seq::empty()
    } else {
        decls_of_stmts(s.drop_last()) + decls_of_stmt(s.last())
    }
}

/// How many names a function's layout must accommodate.  Offsets are
/// computed in 64-bit signed arithmetic, so layout requires this count
/// to be bounded; any program that fits in memory satisfies the bound.
pub open spec fn decl_total(f: FuncV) -> int {
    f.parameters.len() + decls_of_stmts(f.statements).len() as int
}

/// Assigns each parameter in order the next offset below `next`
/// (descending by 8), rejecting a repeated name.
pub open spec fn assign_params(
    params: Seq<ParamV>,
    m: Map<Seq<char>, int>,
    next: int,
) -> Result<(Map<Seq<char>, int>, int), ErrV>
    decreases params.len(),
{
    if params.len() == 0 {
        Ok((m, next))
    } else if m.contains_key(params[0].name) {
        Err(ErrV::DuplicateDeclaration(params[0].name))
    } else {
        assign_params(params.drop_first(), m.insert(params[0].name, next), next - 8)
    }
}

/// Assigns each declared local in order the next offset at or above
/// `next` (ascending by 8), rejecting a name already present.
pub open spec fn assign_locals(
    names: Seq<Seq<char>>,
    m: Map<Seq<char>, int>,
    next: int,
) -> Result<(Map<Seq<char>, int>, int), ErrV>
    decreases names.len(),
{
    if names.len() == 0 {
        Ok((m, next))
    } else if m.contains_key(names[0]) {
        Err(ErrV::DuplicateDeclaration(names[0]))
    } else {
        assign_locals(names.drop_first(), m.insert(names[0], next), next + 8)
    }
}

/// The stack layout of one function: the offset of every parameter and
/// local, and the total byte size reserved for locals.
pub open spec fn layout_of(f: FuncV) -> Result<(Map<Seq<char>, int>, int), ErrV> {
    match assign_params(f.parameters, Map::empty(), -16) {
        Err(e) => Err(e),
        Ok((m, unused)) => match assign_locals(decls_of_stmts(f.statements), m, 8) {
            Err(e) => Err(e),
            Ok((m2, next)) => Ok((m2, next - 8)),
        },
    }
}

#[verifier::loop_isolation(false)]
fn collect_node(n: &IRNode, acc: &mut Vec<String>)
    ensures
        names_view(final(acc)@) == names_view(old(acc)@) + decls_of_node(n@),
    decreases n,
{
    broadcast use lemma_names_view_props, lemma_stmts_view_props;

    match n {
        IRNode::DeclareVariable(name, t) => {
            acc.push(name.clone());
            proof {
                assert(acc@.drop_last() =~= old(acc)@);
                assert(names_view(acc@) =~= names_view(old(acc)@) + decls_of_node(n@));
            }
        },
        IRNode::Conditional(c, body) => {
            collect_stmts(body, acc);
        },
        IRNode::Loop(c, body) => {
            collect_stmts(body, acc);
        },
        _ => {
            proof {
                assert(names_view(acc@) =~= names_view(acc@) + decls_of_node(n@));
            }
        },
    }
}

#[verifier::loop_isolation(false)]
fn collect_stmt(nodes: &Vec<IRNode>, acc: &mut Vec<String>)
    ensures
        names_view(final(acc)@) == names_view(old(acc)@) + decls_of_stmt(node_seq_view(nodes@)),
    decreases nodes@,
{
    broadcast use lemma_node_seq_view_props;

    let ghost ns = node_seq_view(nodes@);
    let mut i: usize = 0;
    while i < nodes.len()
        invariant
            i <= nodes@.len(),
            ns == node_seq_view(nodes@),
            names_view(acc@) == names_view(old(acc)@) + decls_of_stmt(ns.take(i as int)),
        decreases nodes@.len() - i,
    {
        collect_node(&nodes[i], acc);
        proof {
            assert(ns[i as int] == node_view(nodes@[i as int]));
            assert(ns.take(i + 1).drop_last() =~= ns.take(i as int));
            assert(ns.take(i + 1).last() == ns[i as int]);
            assert(names_view(acc@) =~= names_view(old(acc)@) + decls_of_stmt(
                ns.take(i + 1),
            ));
        }
        i = i + 1;
    }
    proof {
        assert(ns.take(nodes@.len() as int) =~= ns);
    }
}

#[verifier::loop_isolation(false)]
fn collect_stmts(stmts: &Vec<Vec<IRNode>>, acc: &mut Vec<String>)
    ensures
        names_view(final(acc)@) == names_view(old(acc)@) + decls_of_stmts(stmts_view(stmts@)),
    decreases stmts@,
{
    broadcast use lemma_stmts_view_props;

    let ghost sv = stmts_view(stmts@);
    let mut i: usize = 0;
    while i < stmts.len()
        invariant
            i <= stmts@.len(),
            sv == stmts_view(stmts@),
            names_view(acc@) == names_view(old(acc)@) + decls_of_stmts(sv.take(i as int)),
        decreases stmts@.len() - i,
    {
        collect_stmt(&stmts[i], acc);
        proof {
            lemma_stmts_view_props(stmts@);
            assert(stmts_view(stmts@)[i as int] == node_seq_view(stmts@[i as int]@));
            assert(sv[i as int] == node_seq_view(stmts@[i as int]@));
            assert(sv.take(i + 1).drop_last() =~= sv.take(i as int));
            assert(sv.take(i + 1).last() == sv[i as int]);
            assert(names_view(acc@) =~= names_view(old(acc)@) + decls_of_stmts(
                sv.take(i + 1),
            ));
        }
        i = i + 1;
    }
    proof {
        assert(sv.take(stmts@.len() as int) =~= sv);
    }
}

/// Builds the stack layout of `func`: parameters at `-16, -24, ...` in
/// declaration order, locals at `8, 16, ...` in document order of
/// their declarations, and the total byte size reserved for locals.
/// Fails with `DuplicateDeclaration` on the first repeated name.
#[verifier::loop_isolation(false)]
pub fn generate_offsets(func: &IRFunction) -> (r: Result<(VariableOffsets, i64), CodegenError>)
    requires
        decl_total(func@) <= 0x1000_0000,
    ensures
        match r {
            Ok(p) => layout_of(func@) is Ok && p.0.wf() && p.0@ == layout_of(func@)->Ok_0.0
                && p.1 as int == layout_of(func@)->Ok_0.1 && 0 <= p.1,
            Err(e) => layout_of(func@) is Err && e@ == layout_of(func@)->Err_0,
        },
{
    broadcast use lemma_param_seq_view_props, lemma_names_view_props;

    let ghost pv = param_seq_view(func.parameters@);
    let mut vars = VariableOffsets::new();
    proof {
        lemma_param_seq_view_props(func.parameters@);
        assert(pv.skip(0) =~= pv);
    }
    let mut param_offset: i64 = -16;
    let mut i: usize = 0;
    while i < func.parameters.len()
        invariant
            i <= func.parameters@.len(),
            pv == param_seq_view(func.parameters@),
            pv.len() + decls_of_stmts(func@.statements).len() <= 0x1000_0000,
            vars.wf(),
            param_offset as int == -16 - 8 * i,
            assign_params(pv, Map::empty(), -16) == assign_params(
                pv.skip(i as int),
                vars@,
                param_offset as int,
            ),
        decreases func.parameters@.len() - i,
    {
        let name = &func.parameters[i].name;
        proof {
            lemma_param_seq_view_props(func.parameters@);
            assert(pv.len() == func.parameters@.len());
            assert(pv.skip(i as int)[0] == pv[i as int]);
            assert(pv.skip(i as int).drop_first() =~= pv.skip(i + 1));
        }
        if vars.get(name).is_some() {
            return Err(CodegenError::DuplicateDeclaration(name.clone()));
        }
        vars.insert(name.clone(), param_offset);
        param_offset = param_offset - 8;
        i = i + 1;
    }
    proof {
        assert(pv.skip(pv.len() as int) =~= Seq::<ParamV>::empty());
    }

    let mut decls: Vec<String> = Vec::new();
    collect_stmts(&func.statements, &mut decls);
    let ghost dv = decls_of_stmts(func@.statements);
    proof {
        assert(names_view(decls@) =~= dv);
    }

    let ghost m0 = assign_params(pv, Map::empty(), -16)->Ok_0.0;
    proof {
        lemma_param_seq_view_props(func.parameters@);
        assert(pv.skip(pv.len() as int) =~= Seq::<ParamV>::empty());
        assert(dv.skip(0) =~= dv);
        assert(names_view(decls@).len() == dv.len());
    }
    let mut local_offset: i64 = 8;
    let mut j: usize = 0;
    while j < decls.len()
        invariant
            j <= decls@.len(),
            names_view(decls@) == dv,
            decls@.len() == dv.len(),
            dv.len() <= 0x1000_0000,
            vars.wf(),
            local_offset as int == 8 + 8 * j,
            assign_locals(dv, m0, 8) == assign_locals(
                dv.skip(j as int),
                vars@,
                local_offset as int,
            ),
        decreases decls@.len() - j,
    {
        let name = &decls[j];
        proof {
            assert(dv.skip(j as int)[0] == dv[j as int]);
            assert(dv.skip(j as int).drop_first() =~= dv.skip(j + 1));
        }
        if vars.get(name).is_some() {
            return Err(CodegenError::DuplicateDeclaration(name.clone()));
        }
        vars.insert(name.clone(), local_offset);
        local_offset = local_offset + 8;
        j = j + 1;
    }
    proof {
        assert(dv.skip(dv.len() as int) =~= Seq::<Seq<char>>::empty());
    }
    Ok((vars, local_offset - 8))
}


proof fn lemma_assign_params_offsets(params: Seq<ParamV>, m: Map<Seq<char>, int>, next: int)
    requires
        assign_params(params, m, next) is Ok,
    ensures
        assign_params(params, m, next)->Ok_0.1 == next - 8 * params.len(),
        forall|i: int|
            0 <= i < params.len() ==> assign_params(params, m, next)->Ok_0.0.contains_key(
                #[trigger] params[i].name,
            ) && assign_params(params, m, next)->Ok_0.0[params[i].name] == next - 8 * i,
        forall|k: Seq<char>|
            #[trigger] m.contains_key(k) ==> assign_params(params, m, next)->Ok_0.0.contains_key(
                k,
            ) && assign_params(params, m, next)->Ok_0.0[k] == m[k],
    decreases params.len(),
{
    if params.len() > 0 {
        let m2 = m.insert(params[0].name, next);
        lemma_assign_params_offsets(params.drop_first(), m2, next - 8);
        assert(forall|k: Seq<char>|
            #[trigger] m.contains_key(k) ==> m2.contains_key(k) && m2[k] == m[k]);
        assert(m2.contains_key(params[0].name) && m2[params[0].name] == next);
        assert(forall|i: int|
            1 <= i < params.len() ==> #[trigger] params[i] == params.drop_first()[i - 1]);
    }
}

proof fn lemma_assign_locals_offsets(names: Seq<Seq<char>>, m: Map<Seq<char>, int>, next: int)
    requires
        assign_locals(names, m, next) is Ok,
    ensures
        assign_locals(names, m, next)->Ok_0.1 == next + 8 * names.len(),
        forall|i: int|
            0 <= i < names.len() ==> assign_locals(names, m, next)->Ok_0.0.contains_key(
                #[trigger] names[i],
            ) && assign_locals(names, m, next)->Ok_0.0[names[i]] == next + 8 * i,
        forall|k: Seq<char>|
            #[trigger] m.contains_key(k) ==> assign_locals(names, m, next)->Ok_0.0.contains_key(
                k,
            ) && assign_locals(names, m, next)->Ok_0.0[k] == m[k],
    decreases names.len(),
{
    if names.len() > 0 {
        let m2 = m.insert(names[0], next);
        lemma_assign_locals_offsets(names.drop_first(), m2, next + 8);
        assert(forall|k: Seq<char>|
            #[trigger] m.contains_key(k) ==> m2.contains_key(k) && m2[k] == m[k]);
        assert(m2.contains_key(names[0]) && m2[names[0]] == next);
        assert(forall|i: int|
            1 <= i < names.len() ==> #[trigger] names[i] == names.drop_first()[i - 1]);
    }
}

/// Law: whenever layout succeeds, the parameters are assigned the
/// offsets `-16, -24, ...` in declaration order.
pub proof fn lemma_parameter_offsets(f: FuncV)
    requires
        layout_of(f) is Ok,
    ensures
        forall|i: int|
            0 <= i < f.parameters.len() ==> layout_of(f)->Ok_0.0.contains_key(
                #[trigger] f.parameters[i].name,
            ) && layout_of(f)->Ok_0.0[f.parameters[i].name] == -16 - 8 * i,
{
    let pr = assign_params(f.parameters, Map::empty(), -16);
    lemma_assign_params_offsets(f.parameters, Map::empty(), -16);
    lemma_assign_locals_offsets(decls_of_stmts(f.statements), pr->Ok_0.0, 8);
}

/// Law: whenever layout succeeds, the declared locals are assigned the
/// offsets `8, 16, ...` in the document order of their declarations,
/// and the byte size reserved for locals is 8 bytes per local.
pub proof fn lemma_local_offsets(f: FuncV)
    requires
        layout_of(f) is Ok,
    ensures
        forall|i: int|
            0 <= i < decls_of_stmts(f.statements).len() ==> layout_of(f)->Ok_0.0.contains_key(
                #[trigger] decls_of_stmts(f.statements)[i],
            ) && layout_of(f)->Ok_0.0[decls_of_stmts(f.statements)[i]] == 8 + 8 * i,
        layout_of(f)->Ok_0.1 == 8 * decls_of_stmts(f.statements).len(),
{
    let pr = assign_params(f.parameters, Map::empty(), -16);
    lemma_assign_locals_offsets(decls_of_stmts(f.statements), pr->Ok_0.0, 8);
}


/// Checks the layout size bound of one function: the declared
/// parameter and local count that 64-bit offset arithmetic requires.
pub fn function_fits(func: &IRFunction) -> (r: bool)
    ensures
        r == (decl_total(func@) <= 0x1000_0000),
{
    broadcast use lemma_names_view_props, lemma_param_seq_view_props;

    let mut decls: Vec<String> = Vec::new();
    collect_stmts(&func.statements, &mut decls);
    proof {
        assert(names_view(decls@) =~= decls_of_stmts(func@.statements));
    }
    match func.parameters.len().checked_add(decls.len()) {
        Some(total) => total <= 0x1000_0000,
        None => false,
    }
}

} // verus!
