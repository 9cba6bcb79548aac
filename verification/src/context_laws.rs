//! What a context holds after any sequence of calls: temporary names,
//! the current method, macros, scopes and lookups.
use vstd::prelude::*;

use crate::context::{
    after, after_all, fresh_context, gen_after_all, lemma_tmp_names_distinct,
    lookup_in_scopes, macro_body, macro_type, tmp_name, ContextOp, ContextView, GenOp,
    TempVarView,
};
use crate::dafny_ast::TypeView;
use crate::strings::dec;

verus! {

/// How many of the calls hand out a temporary name.
pub open spec fn count_tmp(ops: Seq<ContextOp>) -> nat
    decreases ops.len(),
{
    if ops.len() == 0 {
        0
    } else {
        count_tmp(ops.drop_last()) + if ops.last() is TmpVar {
            1nat
        } else {
            0nat
        }
    }
}

/// Each call that hands out a temporary name moves the counter on by one;
/// no other call touches it or the prefix.
pub proof fn lemma_tmp_counter(c: ContextView, ops: Seq<ContextOp>)
    requires
        c.tmp.counter + count_tmp(ops) <= u32::MAX,
    ensures
        after_all(c, ops).tmp == (TempVarView {
            counter: (c.tmp.counter + count_tmp(ops)) as u32,
            prefix: c.tmp.prefix,
        }),
    decreases ops.len(),
{
    if ops.len() > 0 {
        lemma_tmp_counter(c, ops.drop_last());
    }
}

/// From a new context, after calls among which `k` hand out temporary
/// names, the next name handed out is `tmp_k`.
pub proof fn lemma_fresh_tmp_name(ops: Seq<ContextOp>)
    requires
        count_tmp(ops) < u32::MAX,
    ensures
        tmp_name(after_all(fresh_context(), ops).tmp.prefix, after_all(fresh_context(), ops).tmp.counter)
            == seq!['t', 'm', 'p', '_'] + dec(count_tmp(ops)),
{
    lemma_tmp_counter(fresh_context(), ops);
}

/// The temporary name the call at position `i` hands out, if it is one
/// that does.
pub open spec fn tmp_name_at(c: ContextView, ops: Seq<ContextOp>, i: int) -> Seq<char> {
    let d = after_all(c, ops.take(i));
    tmp_name(d.tmp.prefix, d.tmp.counter)
}

proof fn lemma_count_tmp_step(ops: Seq<ContextOp>, k: int)
    requires
        0 <= k < ops.len(),
    ensures
        count_tmp(ops.take(k + 1)) == count_tmp(ops.take(k)) + if ops[k] is TmpVar {
            1nat
        } else {
            0nat
        },
{
    assert(ops.take(k + 1).drop_last() =~= ops.take(k));
    assert(ops.take(k + 1).last() == ops[k]);
}

proof fn lemma_count_tmp_prefix(ops: Seq<ContextOp>, a: int, b: int)
    requires
        0 <= a <= b <= ops.len(),
    ensures
        count_tmp(ops.take(a)) <= count_tmp(ops.take(b)),
        a < b && ops[a] is TmpVar ==> count_tmp(ops.take(a)) + 1 <= count_tmp(ops.take(b)),
    decreases b - a,
{
    if a < b {
        lemma_count_tmp_prefix(ops, a, b - 1);
        lemma_count_tmp_step(ops, b - 1);
    }
}

/// Two calls that hand out temporary names hand out different ones.
pub proof fn lemma_tmp_names_differ(c: ContextView, ops: Seq<ContextOp>, i: int, j: int)
    requires
        0 <= i < j < ops.len(),
        ops[i] is TmpVar,
        c.tmp.counter + count_tmp(ops) <= u32::MAX,
    ensures
        tmp_name_at(c, ops, i) != tmp_name_at(c, ops, j),
{
    lemma_count_tmp_prefix(ops, i, j);
    lemma_count_tmp_prefix(ops, j, ops.len() as int);
    assert(ops.take(ops.len() as int) =~= ops);
    lemma_tmp_counter(c, ops.take(i));
    lemma_tmp_counter(c, ops.take(j));
    let a = after_all(c, ops.take(i)).tmp.counter;
    let b = after_all(c, ops.take(j)).tmp.counter;
    lemma_tmp_names_distinct(c.tmp.prefix, a, b);
}

/// The current method after the calls: the one the last `enter_method`
/// named, none after an `exit_method`, or the one before them all.
pub open spec fn last_method(init: Option<Seq<char>>, ops: Seq<ContextOp>) -> Option<Seq<char>>
    decreases ops.len(),
{
    if ops.len() == 0 {
        init
    } else {
        match ops.last() {
            ContextOp::EnterMethod(m) => Some(m),
            ContextOp::ExitMethod => None,
            _ => last_method(init, ops.drop_last()),
        }
    }
}

/// Only entering and leaving methods changes the current method.
pub proof fn lemma_current_method(c: ContextView, ops: Seq<ContextOp>)
    ensures
        after_all(c, ops).current_method == last_method(c.current_method, ops),
    decreases ops.len(),
{
    if ops.len() > 0 {
        lemma_current_method(c, ops.drop_last());
    }
}

/// What the macro `name` stands for after the calls: what the last
/// `insert_macro` of that name recorded, or what it stood for before them.
pub open spec fn macro_after(
    m: Map<Seq<char>, (Seq<char>, TypeView)>,
    name: Seq<char>,
    ops: Seq<ContextOp>,
) -> Option<(Seq<char>, TypeView)>
    decreases ops.len(),
{
    if ops.len() == 0 {
        if m.contains_key(name) {
            Some(m[name])
        } else {
            None
        }
    } else {
        match ops.last() {
            ContextOp::InsertMacro(n, content) => if n == name {
                Some((macro_body(content), macro_type(content)))
            } else {
                macro_after(m, name, ops.drop_last())
            },
            _ => macro_after(m, name, ops.drop_last()),
        }
    }
}

/// A macro is what the last `insert_macro` of its name recorded; no other
/// call changes it, and a name never recorded is no macro.
pub proof fn lemma_macro_after(c: ContextView, name: Seq<char>, ops: Seq<ContextOp>)
    ensures
        after_all(c, ops).macros.contains_key(name) == macro_after(c.macros, name, ops) is Some,
        after_all(c, ops).macros.contains_key(name) ==> after_all(c, ops).macros[name]
            == macro_after(c.macros, name, ops)->0,
    decreases ops.len(),
{
    if ops.len() > 0 {
        lemma_macro_after(c, name, ops.drop_last());
    }
}

/// `declare_var` calls for each name and type, in order.
pub open spec fn declarations(ds: Seq<(Seq<char>, TypeView)>) -> Seq<ContextOp> {
    ds.map_values(|d: (Seq<char>, TypeView)| ContextOp::DeclareVar(d.0, d.1))
}

proof fn lemma_declarations_in_new_scope(c: ContextView, ds: Seq<(Seq<char>, TypeView)>)
    ensures
        ({
            let d = after_all(c, seq![ContextOp::EnterScope] + declarations(ds));
            &&& d.scopes.len() == c.scopes.len() + 1
            &&& d.scopes.drop_last() == c.scopes
            &&& d.tmp == c.tmp
            &&& d.current_method == c.current_method
            &&& d.macros == c.macros
        }),
    decreases ds.len(),
{
    let ops = seq![ContextOp::EnterScope] + declarations(ds);
    if ds.len() == 0 {
        assert(ops =~= seq![ContextOp::EnterScope]);
        assert(ops.drop_last() =~= Seq::<ContextOp>::empty());
        assert(c.scopes.push(Map::empty()).drop_last() =~= c.scopes);
    } else {
        lemma_declarations_in_new_scope(c, ds.drop_last());
        assert(ops.drop_last() =~= seq![ContextOp::EnterScope] + declarations(ds.drop_last()));
        let before = after_all(c, ops.drop_last());
        assert(ops.last() == ContextOp::DeclareVar(ds.last().0, ds.last().1));
        let d = after(before, ops.last());
        assert(d.scopes.drop_last() =~= before.scopes.drop_last());
    }
}

/// A scope entered, filled with any declarations and left again leaves the
/// context as it was.
pub proof fn lemma_scope_round_trip(c: ContextView, ds: Seq<(Seq<char>, TypeView)>)
    ensures
        after_all(
            c,
            seq![ContextOp::EnterScope] + declarations(ds) + seq![ContextOp::ExitScope],
        ) == c,
{
    let ops = seq![ContextOp::EnterScope] + declarations(ds) + seq![ContextOp::ExitScope];
    lemma_declarations_in_new_scope(c, ds);
    assert(ops.drop_last() =~= seq![ContextOp::EnterScope] + declarations(ds));
    let d = after_all(c, ops);
    assert(d.scopes =~= c.scopes);
}

/// A lookup finds the type of the innermost scope that declares the name,
/// and nothing when no scope does.
pub proof fn lemma_lookup_innermost(scopes: Seq<Map<Seq<char>, TypeView>>, name: Seq<char>)
    ensures
        match lookup_in_scopes(scopes, name) {
            Some(t) => exists|i: int|
                0 <= i < scopes.len() && #[trigger] scopes[i].contains_key(name) && scopes[i][name]
                    == t && (forall|j: int| i < j < scopes.len() ==> !scopes[j].contains_key(name)),
            None => forall|i: int| 0 <= i < scopes.len() ==> !#[trigger] scopes[i].contains_key(name),
        },
    decreases scopes.len(),
{
    if scopes.len() > 0 {
        let rest = scopes.drop_last();
        lemma_lookup_innermost(rest, name);
        let last = scopes.len() - 1;
        if scopes.last().contains_key(name) {
            assert(scopes[last].contains_key(name));
        } else {
            match lookup_in_scopes(rest, name) {
                Some(t) => {
                    let i = choose|i: int|
                        0 <= i < rest.len() && #[trigger] rest[i].contains_key(name) && rest[i][name]
                            == t && (forall|j: int| i < j < rest.len() ==> !rest[j].contains_key(name));
                    assert(scopes[i] == rest[i]);
                    assert forall|j: int| i < j < scopes.len() implies !scopes[j].contains_key(name) by {
                        if j < last {
                            assert(scopes[j] == rest[j]);
                        }
                    }
                },
                None => {
                    assert forall|i: int| 0 <= i < scopes.len() implies !#[trigger] scopes[i].contains_key(name) by {
                        if i < last {
                            assert(scopes[i] == rest[i]);
                        }
                    }
                },
            }
        }
    }
}

/// After `k` calls of `next` and no reset, the counter has moved on by
/// `k`, and the prefix is the same.
pub proof fn lemma_generator_count(g: TempVarView, ops: Seq<GenOp>)
    requires
        forall|i: int| 0 <= i < ops.len() ==> #[trigger] ops[i] is Next,
        g.counter + ops.len() <= u32::MAX,
    ensures
        gen_after_all(g, ops) == (TempVarView {
            counter: (g.counter + ops.len()) as u32,
            prefix: g.prefix,
        }),
    decreases ops.len(),
{
    if ops.len() > 0 {
        let rest = ops.drop_last();
        assert forall|i: int| 0 <= i < rest.len() implies #[trigger] rest[i] is Next by {
            assert(rest[i] == ops[i]);
        }
        assert(ops.last() == ops[ops.len() - 1]);
        lemma_generator_count(g, rest);
    }
}

/// The names a generator hands out from calls of `next` with no reset in
/// between are all different: the name at call `i` is the prefix followed
/// by the starting counter plus `i`.
pub proof fn lemma_generator_names(g: TempVarView, ops: Seq<GenOp>, i: int, j: int)
    requires
        forall|k: int| 0 <= k < ops.len() ==> #[trigger] ops[k] is Next,
        g.counter + ops.len() <= u32::MAX,
        0 <= i < j < ops.len(),
    ensures
        tmp_name(g.prefix, gen_after_all(g, ops.take(i)).counter) == g.prefix + dec(
            (g.counter + i) as nat,
        ),
        tmp_name(g.prefix, gen_after_all(g, ops.take(i)).counter) != tmp_name(
            g.prefix,
            gen_after_all(g, ops.take(j)).counter,
        ),
{
    assert forall|k: int| 0 <= k < ops.take(i).len() implies #[trigger] ops.take(i)[k] is Next by {
        assert(ops.take(i)[k] == ops[k]);
    }
    assert forall|k: int| 0 <= k < ops.take(j).len() implies #[trigger] ops.take(j)[k] is Next by {
        assert(ops.take(j)[k] == ops[k]);
    }
    lemma_generator_count(g, ops.take(i));
    lemma_generator_count(g, ops.take(j));
    lemma_tmp_names_distinct(
        g.prefix,
        gen_after_all(g, ops.take(i)).counter,
        gen_after_all(g, ops.take(j)).counter,
    );
}

} // verus!
