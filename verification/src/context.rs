//! The translation context: fresh temporary names, the method being
//! translated, a stack of variable scopes and the table of macros.
use vstd::prelude::*;
use vstd::string::*;

use crate::dafny_ast::{Type, TypeView};
use crate::strings::{
    dec, lemma_dec_injective, push_decimal, seq_contains, str_contains, str_eq,
};

verus! {

/// The model of a context.
pub struct ContextView {
    pub tmp: TempVarView,
    pub current_method: Option<Seq<char>>,
    /// The innermost scope is the last one.
    pub scopes: Seq<Map<Seq<char>, TypeView>>,
    /// Each macro's name maps to its body and the type of its value.
    pub macros: Map<Seq<char>, (Seq<char>, TypeView)>,
}

/// The model of a temporary-name generator.
pub struct TempVarView {
    pub counter: u32,
    pub prefix: Seq<char>,
}

/// The global translation context.
#[derive(Debug, Clone)]
pub struct Context {
    tmp_var_gen: TempVarGenerator,
    current_method: Option<String>,
    scope_stack: Vec<Vec<(String, Type)>>,
    macros: Vec<(String, (String, Type))>,
}

/// The map that an association list stands for: a later entry for a name
/// overrides an earlier one.
pub open spec fn assoc_view<V: View>(s: Seq<(String, V)>) -> Map<Seq<char>, V::V>
    decreases s.len(),
{
    if s.len() == 0 {
        Map::empty()
    } else {
        assoc_view(s.drop_last()).insert(s.last().0@, s.last().1@)
    }
}

/// The variable a name refers to: its entry in the innermost scope that
/// declares it.
pub open spec fn lookup_in_scopes(scopes: Seq<Map<Seq<char>, TypeView>>, name: Seq<char>) -> Option<
    TypeView,
>
    decreases scopes.len(),
{
    if scopes.len() == 0 {
        None
    } else if scopes.last().contains_key(name) {
        Some(scopes.last()[name])
    } else {
        lookup_in_scopes(scopes.drop_last(), name)
    }
}

pub open spec fn scopes_view(s: Seq<Vec<(String, Type)>>) -> Seq<Map<Seq<char>, TypeView>> {
    s.map_values(|scope: Vec<(String, Type)>| assoc_view(scope@))
}

/// The scopes after declaring `name` with type `ty` in the innermost one;
/// with no scope open, nothing changes.
pub open spec fn declare_in(scopes: Seq<Map<Seq<char>, TypeView>>, name: Seq<char>, ty: TypeView) -> Seq<
    Map<Seq<char>, TypeView>,
> {
    if scopes.len() > 0 {
        scopes.update(scopes.len() - 1, scopes.last().insert(name, ty))
    } else {
        scopes
    }
}

/// The scopes after closing the innermost one, if there is one.
pub open spec fn pop_scope(scopes: Seq<Map<Seq<char>, TypeView>>) -> Seq<Map<Seq<char>, TypeView>> {
    if scopes.len() > 0 {
        scopes.drop_last()
    } else {
        scopes
    }
}

/// The type a macro's value is given: `real` when its text holds a `.`,
/// `bool` when it mentions `true` or `false`, `int` otherwise.
pub open spec fn macro_type(content: Seq<char>) -> TypeView {
    if seq_contains(content, seq!['.']) {
        TypeView::Real
    } else if seq_contains(content, seq!['t', 'r', 'u', 'e']) || seq_contains(
        content,
        seq!['f', 'a', 'l', 's', 'e'],
    ) {
        TypeView::Bool
    } else {
        TypeView::Int
    }
}

/// The nesting depth of parentheses after the first `i` characters of `s`.
pub open spec fn paren_depth(s: Seq<char>, i: int) -> int
    decreases i,
{
    if i <= 0 || i > s.len() {
        0
    } else {
        paren_depth(s, i - 1) + if s[i - 1] == '(' {
            1int
        } else if s[i - 1] == ')' {
            -1int
        } else {
            0int
        }
    }
}

/// `s` is a pair of parentheses around the rest: it starts with `(`, and the
/// `)` that closes that one is its last character.
pub open spec fn wrapped_in_parens(s: Seq<char>) -> bool {
    &&& s.len() >= 2
    &&& s[0] == '('
    &&& s[s.len() - 1] == ')'
    &&& paren_depth(s, s.len() as int) == 0
    &&& forall|i: int| 1 <= i < s.len() ==> #[trigger] paren_depth(s, i) > 0
}

/// A macro's text without its outermost pair of parentheses, when it has
/// one around the whole text.
pub open spec fn macro_body(content: Seq<char>) -> Seq<char> {
    if wrapped_in_parens(content) {
        content.subrange(1, content.len() - 1)
    } else {
        content
    }
}

/// Whether the text is a pair of parentheses around the rest.
fn is_wrapped(s: &str) -> (r: bool)
    ensures
        r == wrapped_in_parens(s@),
{
    let n = s.unicode_len();
    if n < 2 || s.get_char(0) != '(' || s.get_char(n - 1) != ')' {
        return false;
    }
    assert(paren_depth(s@, 1) == 1) by {
        assert(paren_depth(s@, 0) == 0);
    }
    let mut depth: usize = 1;
    let mut i: usize = 1;
    while i < n - 1
        invariant
            n == s@.len(),
            n >= 2,
            1 <= i <= n - 1,
            1 <= depth <= i,
            depth as int == paren_depth(s@, i as int),
            forall|j: int| 1 <= j <= i ==> #[trigger] paren_depth(s@, j) > 0,
        decreases n - 1 - i,
    {
        let c = s.get_char(i);
        assert(paren_depth(s@, i + 1) == paren_depth(s@, i as int) + if s@[i as int] == '(' {
            1int
        } else if s@[i as int] == ')' {
            -1int
        } else {
            0int
        });
        if c == '(' {
            depth = depth + 1;
        } else if c == ')' {
            if depth == 1 {
                assert(paren_depth(s@, i + 1) == 0);
                return false;
            }
            depth = depth - 1;
        }
        i = i + 1;
    }
    assert(paren_depth(s@, n as int) == paren_depth(s@, (n - 1) as int) - 1);
    depth == 1
}

/// One call that changes a context: `enter_method`, `exit_method`,
/// `get_tmp_var`, `enter_scope`, `exit_scope`, `declare_var` or
/// `insert_macro`, with its arguments.
pub enum ContextOp {
    EnterMethod(Seq<char>),
    ExitMethod,
    TmpVar,
    EnterScope,
    ExitScope,
    DeclareVar(Seq<char>, TypeView),
    InsertMacro(Seq<char>, Seq<char>),
}

/// The model of a context after one call.
pub open spec fn after(c: ContextView, op: ContextOp) -> ContextView {
    match op {
        ContextOp::EnterMethod(m) => ContextView { current_method: Some(m), ..c },
        ContextOp::ExitMethod => ContextView { current_method: None, ..c },
        ContextOp::TmpVar => ContextView {
            tmp: TempVarView { counter: (c.tmp.counter + 1) as u32, prefix: c.tmp.prefix },
            ..c
        },
        ContextOp::EnterScope => ContextView { scopes: c.scopes.push(Map::empty()), ..c },
        ContextOp::ExitScope => ContextView { scopes: pop_scope(c.scopes), ..c },
        ContextOp::DeclareVar(name, ty) => ContextView { scopes: declare_in(c.scopes, name, ty), ..c },
        ContextOp::InsertMacro(name, content) => ContextView {
            macros: c.macros.insert(name, (macro_body(content), macro_type(content))),
            ..c
        },
    }
}

/// The model of a context after a sequence of calls, in order.
pub open spec fn after_all(c: ContextView, ops: Seq<ContextOp>) -> ContextView
    decreases ops.len(),
{
    if ops.len() == 0 {
        c
    } else {
        after(after_all(c, ops.drop_last()), ops.last())
    }
}

/// One call that changes a temporary-name generator.
pub enum GenOp {
    Next,
    Reset,
}

/// The model of a generator after one call.
pub open spec fn gen_after(g: TempVarView, op: GenOp) -> TempVarView {
    match op {
        GenOp::Next => TempVarView { counter: (g.counter + 1) as u32, prefix: g.prefix },
        GenOp::Reset => TempVarView { counter: 0, prefix: g.prefix },
    }
}

/// The model of a generator after a sequence of calls, in order.
pub open spec fn gen_after_all(g: TempVarView, ops: Seq<GenOp>) -> TempVarView
    decreases ops.len(),
{
    if ops.len() == 0 {
        g
    } else {
        gen_after(gen_after_all(g, ops.drop_last()), ops.last())
    }
}

/// The model of a new context: one empty scope, no macros, no current
/// method, and temporaries named from `tmp_0` on.
pub open spec fn fresh_context() -> ContextView {
    ContextView {
        tmp: TempVarView { counter: 0, prefix: seq!['t', 'm', 'p', '_'] },
        current_method: None,
        scopes: seq![Map::empty()],
        macros: Map::empty(),
    }
}

/// The name a generator hands out when its counter is at `counter`.
pub open spec fn tmp_name(prefix: Seq<char>, counter: u32) -> Seq<char> {
    prefix + dec(counter as nat)
}

impl View for TempVarGenerator {
    type V = TempVarView;

    closed spec fn view(&self) -> TempVarView {
        TempVarView { counter: self.counter, prefix: self.prefix@ }
    }
}

impl View for Context {
    type V = ContextView;

    closed spec fn view(&self) -> ContextView {
        ContextView {
            tmp: self.tmp_var_gen@,
            current_method: match self.current_method {
                Some(m) => Some(m@),
                None => None,
            },
            scopes: scopes_view(self.scope_stack@),
            macros: assoc_view(self.macros@),
        }
    }
}

proof fn lemma_assoc_view_suffix<V: View>(s: Seq<(String, V)>, i: int, k: Seq<char>)
    requires
        0 <= i <= s.len(),
        forall|j: int| i <= j < s.len() ==> s[j].0@ != k,
    ensures
        assoc_view(s).contains_key(k) == assoc_view(s.subrange(0, i)).contains_key(k),
        assoc_view(s).contains_key(k) ==> assoc_view(s)[k] == assoc_view(s.subrange(0, i))[k],
    decreases s.len() - i,
{
    if i < s.len() {
        assert(s.drop_last().subrange(0, i) =~= s.subrange(0, i));
        lemma_assoc_view_suffix(s.drop_last(), i, k);
    } else {
        assert(s.subrange(0, i) =~= s);
    }
}

/// The position of the last entry for `name`, if any.
fn assoc_find<V: View>(s: &Vec<(String, V)>, name: &str) -> (r: Option<usize>)
    ensures
        match r {
            Some(j) => j < s@.len() && s@[j as int].0@ == name@ && assoc_view(s@).contains_key(
                name@,
            ) && assoc_view(s@)[name@] == s@[j as int].1@,
            None => !assoc_view(s@).contains_key(name@),
        },
{
    let mut i = s.len();
    while i > 0
        invariant
            i <= s@.len(),
            forall|j: int| i <= j < s@.len() ==> s@[j].0@ != name@,
        decreases i,
    {
        if str_eq(s[i - 1].0.as_str(), name) {
            proof {
                lemma_assoc_view_suffix(s@, i as int, name@);
                assert(s@.subrange(0, i as int).drop_last() =~= s@.subrange(0, i - 1));
            }
            return Some(i - 1);
        }
        i = i - 1;
    }
    proof {
        lemma_assoc_view_suffix(s@, 0, name@);
    }
    None
}

impl Context {
    /// A context with one empty scope, no macros, no current method, and
    /// temporaries named `tmp_0`, `tmp_1`, ...
    pub fn new() -> (r: Self)
        ensures
            r@.tmp.counter == 0,
            r@.tmp.prefix == seq!['t', 'm', 'p', '_'],
            r@.current_method is None,
            r@.scopes == seq![Map::<Seq<char>, TypeView>::empty()],
            r@.macros == Map::<Seq<char>, (Seq<char>, TypeView)>::empty(),
            r@ == fresh_context(),
    {
        let mut scope_stack: Vec<Vec<(String, Type)>> = Vec::new();
        scope_stack.push(Vec::new());
        let r = Self {
            tmp_var_gen: TempVarGenerator::new("tmp_"),
            current_method: None,
            scope_stack,
            macros: Vec::new(),
        };
        proof {
            reveal_strlit("tmp_");
            assert(r@.scopes =~= seq![Map::<Seq<char>, TypeView>::empty()]);
        }
        r
    }

    pub fn enter_method(&mut self, method_name: String)
        ensures
            final(self)@ == (ContextView { current_method: Some(method_name@), ..old(self)@ }),
            final(self)@ == after(old(self)@, ContextOp::EnterMethod(method_name@)),
    {
        self.current_method = Some(method_name);
    }

    pub fn exit_method(&mut self)
        ensures
            final(self)@ == (ContextView { current_method: None, ..old(self)@ }),
            final(self)@ == after(old(self)@, ContextOp::ExitMethod),
    {
        self.current_method = None;
    }

    /// A fresh temporary name; the counter moves on by one.
    pub fn get_tmp_var(&mut self) -> (r: String)
        requires
            old(self)@.tmp.counter < u32::MAX,
        ensures
            r@ == tmp_name(old(self)@.tmp.prefix, old(self)@.tmp.counter),
            final(self)@ == (ContextView {
                tmp: TempVarView { counter: (old(self)@.tmp.counter + 1) as u32, ..old(self)@.tmp },
                ..old(self)@
            }),
            final(self)@ == after(old(self)@, ContextOp::TmpVar),
    {
        self.tmp_var_gen.next()
    }

    pub fn get_current_method(&self) -> (r: Option<&String>)
        ensures
            match r {
                Some(m) => self@.current_method == Some(m@),
                None => self@.current_method is None,
            },
    {
        self.current_method.as_ref()
    }

    /// The name of the current method, to be changed in place.
    pub fn get_current_method_mut(&mut self) -> (r: Option<&mut String>)
        ensures
            match old(self)@.current_method {
                Some(m) => r is Some && r.unwrap()@ == m && final(self)@ == (ContextView {
                    current_method: Some(final(r.unwrap())@),
                    ..old(self)@
                }),
                None => r is None && final(self)@ == old(self)@,
            },
    {
        self.current_method.as_mut()
    }

    /// Opens a new innermost scope.
    pub fn enter_scope(&mut self)
        ensures
            final(self)@ == (ContextView {
                scopes: old(self)@.scopes.push(Map::empty()),
                ..old(self)@
            }),
            final(self)@ == after(old(self)@, ContextOp::EnterScope),
    {
        self.scope_stack.push(Vec::new());
        proof {
            assert(assoc_view(Seq::<(String, Type)>::empty()) == Map::<Seq<char>, TypeView>::empty());
            assert(self@.scopes =~= old(self)@.scopes.push(Map::empty()));
        }
    }

    /// Closes the innermost scope, if there is one.
    pub fn exit_scope(&mut self)
        ensures
            final(self)@ == (ContextView { scopes: pop_scope(old(self)@.scopes), ..old(self)@ }),
            final(self)@ == after(old(self)@, ContextOp::ExitScope),
    {
        self.scope_stack.pop();
        proof {
            if old(self)@.scopes.len() > 0 {
                assert(self@.scopes =~= old(self)@.scopes.drop_last());
            } else {
                assert(self@.scopes =~= old(self)@.scopes);
            }
        }
    }

    /// Declares `name` with type `ty` in the innermost scope; with no scope
    /// open, nothing changes.
    pub fn declare_var(&mut self, name: String, ty: Type)
        ensures
            final(self)@ == (ContextView {
                scopes: declare_in(old(self)@.scopes, name@, ty@),
                ..old(self)@
            }),
            final(self)@ == after(old(self)@, ContextOp::DeclareVar(name@, ty@)),
    {
        let n = self.scope_stack.len();
        if n > 0 {
            let mut last = self.scope_stack.pop().unwrap();
            let ghost before = last@;
            last.push((name, ty));
            proof {
                assert(last@.drop_last() =~= before);
            }
            self.scope_stack.push(last);
            proof {
                assert(self@.scopes =~= old(self)@.scopes.update(
                    old(self)@.scopes.len() - 1,
                    old(self)@.scopes.last().insert(name@, ty@),
                ));
            }
        }
    }

    /// The type of the variable `name` refers to, searching from the
    /// innermost scope outwards.
    pub fn lookup_var(&self, name: &str) -> (r: Option<&Type>)
        ensures
            match r {
                Some(t) => lookup_in_scopes(self@.scopes, name@) == Some(t@),
                None => lookup_in_scopes(self@.scopes, name@) is None,
            },
    {
        let mut i = self.scope_stack.len();
        assert(self@.scopes.subrange(0, i as int) =~= self@.scopes);
        while i > 0
            invariant
                i <= self.scope_stack@.len(),
                self@.scopes.len() == self.scope_stack@.len(),
                lookup_in_scopes(self@.scopes, name@) == lookup_in_scopes(
                    self@.scopes.subrange(0, i as int),
                    name@,
                ),
            decreases i,
        {
            let ghost prefix = self@.scopes.subrange(0, i as int);
            assert(prefix.last() == assoc_view(self.scope_stack@[i - 1]@));
            assert(prefix.drop_last() =~= self@.scopes.subrange(0, i - 1));
            match assoc_find(&self.scope_stack[i - 1], name) {
                Some(j) => {
                    return Some(&self.scope_stack[i - 1][j].1);
                },
                None => {},
            }
            i = i - 1;
        }
        None
    }

    /// Records a macro. Its value's type is `real` when the text holds a
    /// `.`, `bool` when it mentions `true` or `false`, `int` otherwise; the
    /// outermost pair of parentheses is removed when it encloses the whole
    /// text.
    pub fn insert_macro(&mut self, name: String, content: String)
        ensures
            final(self)@ == (ContextView {
                macros: old(self)@.macros.insert(
                    name@,
                    (macro_body(content@), macro_type(content@)),
                ),
                ..old(self)@
            }),
            final(self)@ == after(old(self)@, ContextOp::InsertMacro(name@, content@)),
    {
        proof {
            reveal_strlit(".");
            reveal_strlit("true");
            reveal_strlit("false");
            assert("."@ =~= seq!['.']);
            assert("true"@ =~= seq!['t', 'r', 'u', 'e']);
            assert("false"@ =~= seq!['f', 'a', 'l', 's', 'e']);
        }
        let ty = if str_contains(content.as_str(), ".") {
            Type::Real
        } else if str_contains(content.as_str(), "true") || str_contains(content.as_str(), "false") {
            Type::Bool
        } else {
            Type::Int
        };
        let body = if is_wrapped(content.as_str()) {
            let n = content.as_str().unicode_len();
            String::from_str(content.as_str().substring_char(1, n - 1))
        } else {
            content
        };
        let ghost before = self.macros@;
        self.macros.push((name, (body, ty)));
        proof {
            assert(self.macros@.drop_last() =~= before);
        }
    }

    /// The body and type of the macro `name`.
    pub fn lookup_macro(&self, name: &str) -> (r: Option<&(String, Type)>)
        ensures
            match r {
                Some(m) => self@.macros.contains_key(name@) && self@.macros[name@] == (m.0@, m.1@),
                None => !self@.macros.contains_key(name@),
            },
    {
        match assoc_find(&self.macros, name) {
            Some(j) => Some(&self.macros[j].1),
            None => None,
        }
    }
}

/// A declared variable is found under its name, and declaring it changes
/// what no other name refers to.
pub proof fn lemma_lookup_after_declare(
    scopes: Seq<Map<Seq<char>, TypeView>>,
    name: Seq<char>,
    ty: TypeView,
    other: Seq<char>,
)
    requires
        scopes.len() > 0,
    ensures
        lookup_in_scopes(declare_in(scopes, name, ty), name) == Some(ty),
        other != name ==> lookup_in_scopes(declare_in(scopes, name, ty), other) == lookup_in_scopes(
            scopes,
            other,
        ),
{
    let after = declare_in(scopes, name, ty);
    assert(after.drop_last() =~= scopes.drop_last());
}

/// A new, empty scope changes no lookup; a name declared in it shadows the
/// outer declarations.
pub proof fn lemma_shadowing(
    scopes: Seq<Map<Seq<char>, TypeView>>,
    name: Seq<char>,
    ty: TypeView,
    other: Seq<char>,
)
    ensures
        lookup_in_scopes(scopes.push(Map::empty()), other) == lookup_in_scopes(scopes, other),
        lookup_in_scopes(declare_in(scopes.push(Map::empty()), name, ty), name) == Some(ty),
{
    assert(scopes.push(Map::empty()).drop_last() =~= scopes);
    lemma_lookup_after_declare(scopes.push(Map::empty()), name, ty, other);
}

/// A macro is read back as it was recorded: its text without the
/// outermost parentheses when they enclose it all, and the type its text
/// indicates.
pub proof fn lemma_macro_read_after_write(
    macros: Map<Seq<char>, (Seq<char>, TypeView)>,
    name: Seq<char>,
    content: Seq<char>,
    other: Seq<char>,
)
    ensures
        macros.insert(name, (macro_body(content), macro_type(content))).contains_key(name),
        macros.insert(name, (macro_body(content), macro_type(content)))[name] == (
            macro_body(content),
            macro_type(content),
        ),
        other != name ==> macros.insert(name, (macro_body(content), macro_type(content))).contains_key(
            other,
        ) == macros.contains_key(other),
{
}

/// Different counter values give different temporary names.
pub proof fn lemma_tmp_names_distinct(prefix: Seq<char>, a: u32, b: u32)
    requires
        a != b,
    ensures
        tmp_name(prefix, a) != tmp_name(prefix, b),
{
    if tmp_name(prefix, a) == tmp_name(prefix, b) {
        let n = prefix.len() as int;
        let ta = tmp_name(prefix, a);
        let tb = tmp_name(prefix, b);
        assert(ta.subrange(n, ta.len() as int) =~= dec(a as nat));
        assert(tb.subrange(n, tb.len() as int) =~= dec(b as nat));
        lemma_dec_injective(a as nat, b as nat);
    }
}

/// A generator of unique temporary names: a fixed prefix followed by a
/// counter.
#[derive(Debug, Clone)]
pub struct TempVarGenerator {
    counter: u32,
    prefix: String,
}

impl TempVarGenerator {
    pub fn new(prefix: &str) -> (r: Self)
        ensures
            r@.counter == 0,
            r@.prefix == prefix@,
    {
        Self { counter: 0, prefix: String::from_str(prefix) }
    }

    /// The next name: the prefix followed by the counter in decimal; the
    /// counter then moves on by one.
    pub fn next(&mut self) -> (r: String)
        requires
            old(self)@.counter < u32::MAX,
        ensures
            r@ == tmp_name(old(self)@.prefix, old(self)@.counter),
            final(self)@.counter == old(self)@.counter + 1,
            final(self)@.prefix == old(self)@.prefix,
            final(self)@ == gen_after(old(self)@, GenOp::Next),
    {
        let mut name = self.prefix.clone();
        push_decimal(&mut name, self.counter as u128);
        self.counter += 1;
        name
    }

    /// Starts the counter again from zero.
    pub fn reset(&mut self)
        ensures
            final(self)@.counter == 0,
            final(self)@.prefix == old(self)@.prefix,
            final(self)@ == gen_after(old(self)@, GenOp::Reset),
    {
        self.counter = 0;
    }
}

} // verus!
