use crate::ast::{Builtin, EvalErr, Expr, ExprV, car_v, cdr_v, expr_eq, res_v, text_v};
use vstd::prelude::*;

verus! {

/// One name-to-value binding inside a scope frame.
pub struct Binding {
    pub name: String,
    pub val: Expr,
}

/// The model of a binding.
#[verifier::ext_equal]
pub struct BindingV {
    pub name: Seq<char>,
    pub val: ExprV,
}

impl View for Binding {
    type V = BindingV;

    open spec fn view(&self) -> BindingV {
        BindingV { name: self.name@, val: self.val@ }
    }
}

/// One scope frame: a table of bindings (later entries shadow earlier
/// ones with the same name) and the handle of the enclosing frame.
pub struct Frame {
    pub table: Vec<Binding>,
    pub parent: Option<usize>,
}

/// The model of a frame.
#[verifier::ext_equal]
pub struct FrameV {
    pub table: Seq<BindingV>,
    pub parent: Option<nat>,
}

/// The views of the bindings of a table.
pub open spec fn table_view(s: Seq<Binding>) -> Seq<BindingV> {
    s.map(|i: int, b: Binding| b@)
}

impl View for Frame {
    type V = FrameV;

    open spec fn view(&self) -> FrameV {
        FrameV {
            table: table_view(self.table@),
            parent: match self.parent {
                Some(p) => Some(p as nat),
                None => None,
            },
        }
    }
}

/// The chain of scope frames, held as an arena: a frame never moves,
/// a closure names its captured environment by the index of a frame,
/// and `active` is the frame that lookups and definitions use.
pub struct Env {
    pub frames: Vec<Frame>,
    pub active: usize,
}

/// The model of the whole environment.
#[verifier::ext_equal]
pub struct EnvV {
    pub frames: Seq<FrameV>,
    pub active: nat,
}

impl View for Env {
    type V = EnvV;

    open spec fn view(&self) -> EnvV {
        EnvV {
            frames: self.frames@.map(|i: int, f: Frame| f@),
            active: self.active as nat,
        }
    }
}

/// Every closure handle inside `e` names one of the first `n` frames.
pub open spec fn expr_wf(e: ExprV, n: nat) -> bool
    decreases e,
{
    match e {
        ExprV::Pair(a, d) => expr_wf(*a, n) && expr_wf(*d, n),
        ExprV::CompProc(p, b, h) => h < n && expr_wf(*p, n) && expr_wf(*b, n),
        _ => true,
    }
}

/// A frame is well formed at position `i` of an arena of `n` frames:
/// its parent stands strictly before it, and every stored value only
/// names existing frames.
pub open spec fn frame_wf(f: FrameV, i: int, n: nat) -> bool {
    &&& (f.parent matches Some(p) ==> p < i)
    &&& forall|j: int| 0 <= j < f.table.len() ==> expr_wf(#[trigger] f.table[j].val, n)
}

/// The environment invariant: the arena is non-empty, the active frame
/// exists, and every frame is well formed at its position.
pub open spec fn env_wf(env: EnvV) -> bool {
    &&& env.frames.len() > 0
    &&& env.active < env.frames.len()
    &&& forall|i: int|
        0 <= i < env.frames.len() ==> frame_wf(
            #[trigger] env.frames[i],
            i,
            env.frames.len(),
        )
}

/// Well-formedness only ever asks that handles exist, so it survives
/// the arena growing.
pub proof fn lemma_expr_wf_mono(e: ExprV, n: nat, m: nat)
    requires
        expr_wf(e, n),
        n <= m,
    ensures
        expr_wf(e, m),
    decreases e,
{
    match e {
        ExprV::Pair(a, d) => {
            lemma_expr_wf_mono(*a, n, m);
            lemma_expr_wf_mono(*d, n, m);
        },
        ExprV::CompProc(p, b, h) => {
            lemma_expr_wf_mono(*p, n, m);
            lemma_expr_wf_mono(*b, n, m);
        },
        _ => {},
    }
}

/// An expression without closures never names a frame, so it is well
/// formed for any arena.
pub proof fn lemma_closed_wf(e: ExprV, n: nat)
    requires
        crate::ast::expr_closed(e),
    ensures
        expr_wf(e, n),
    decreases e,
{
    match e {
        ExprV::Pair(a, d) => {
            lemma_closed_wf(*a, n);
            lemma_closed_wf(*d, n);
        },
        _ => {},
    }
}

/// Looks a name up in one table, later entries first (last write
/// wins).
pub open spec fn frame_lookup_v(table: Seq<BindingV>, name: Seq<char>) -> Option<ExprV>
    decreases table.len(),
{
    if table.len() == 0 {
        None
    } else if table.last().name == name {
        Some(table.last().val)
    } else {
        frame_lookup_v(table.drop_last(), name)
    }
}

/// Looks a name up from frame `h` outward along the parent chain.
pub open spec fn lookup_from_v(env: EnvV, h: nat, name: Seq<char>) -> Option<ExprV>
    decreases h,
{
    if h < env.frames.len() {
        match frame_lookup_v(env.frames[h as int].table, name) {
            Some(v) => Some(v),
            None => match env.frames[h as int].parent {
                Some(p) => if p < h {
                    lookup_from_v(env, p, name)
                } else {
                    None
                },
                None => None,
            },
        }
    } else {
        None
    }
}

/// Looks a name up from the active frame.
pub open spec fn lookup_v(env: EnvV, name: Seq<char>) -> Option<ExprV> {
    lookup_from_v(env, env.active, name)
}

/// Binds `name` to `val` in the active frame only; an existing binding
/// of the same name is shadowed, so the new value wins.
pub open spec fn define_v(env: EnvV, name: Seq<char>, val: ExprV) -> EnvV {
    let f = env.frames[env.active as int];
    EnvV {
        frames: env.frames.update(
            env.active as int,
            FrameV { table: f.table.push(BindingV { name, val }), parent: f.parent },
        ),
        active: env.active,
    }
}

/// The bindings that pairing formals with arguments yields, first
/// formal first.
pub open spec fn bindings_of_v(vars: ExprV, vals: ExprV) -> Seq<BindingV>
    decreases vars,
{
    match vars {
        ExprV::Pair(n, vr) => match vals {
            ExprV::Pair(v, lr) => seq![BindingV { name: text_v(*n), val: *v }] + bindings_of_v(
                *vr,
                *lr,
            ),
            _ => Seq::empty(),
        },
        _ => Seq::empty(),
    }
}

/// Formals and arguments can be bound: both are proper lists of equal
/// length and every formal is a symbol or a string.
pub open spec fn bindable_v(vars: ExprV, vals: ExprV) -> bool
    decreases vars,
{
    match vars {
        ExprV::Nil => vals is Nil,
        ExprV::Pair(n, vr) => (*n is Sym || *n is Str) && (vals matches ExprV::Pair(_, lr)
            && bindable_v(*vr, *lr)),
        _ => false,
    }
}

/// The environment after a new frame is appended whose parent is
/// `base` and whose table binds the formals to the arguments.
pub open spec fn extend_v(env: EnvV, base: nat, vars: ExprV, vals: ExprV) -> EnvV {
    EnvV {
        frames: env.frames.push(
            FrameV { table: bindings_of_v(vars, vals), parent: Some(base) },
        ),
        active: env.active,
    }
}

impl Env {
    /// Binds `var` to `val` in the active frame.
    pub fn def_var(&mut self, var: String, val: Expr)
        requires
            env_wf(old(self)@),
            expr_wf(val@, old(self)@.frames.len()),
        ensures
            final(self)@ == define_v(old(self)@, var@, val@),
            env_wf(final(self)@),
    {
        self.add_binding(var, val);
    }

    /// Binds `var` to `val` in the active frame, from a string slice.
    pub fn str_def(&mut self, var: &str, val: Expr)
        requires
            env_wf(old(self)@),
            expr_wf(val@, old(self)@.frames.len()),
        ensures
            final(self)@ == define_v(old(self)@, var@, val@),
            env_wf(final(self)@),
    {
        self.add_binding(String::from_str(var), val);
    }

    /// Appends the binding to the active frame's table.
    pub fn add_binding(&mut self, var: String, val: Expr)
        requires
            env_wf(old(self)@),
            expr_wf(val@, old(self)@.frames.len()),
        ensures
            final(self)@ == define_v(old(self)@, var@, val@),
            env_wf(final(self)@),
    {
        let a = self.active;
        let f = &mut self.frames[a];
        f.table.push(Binding { name: var, val });
        proof {
            assert(self@.frames =~~= define_v(old(self)@, var@, val@).frames);
        }
    }

    /// Looks `var` up from the active frame along the parent chain.
    pub fn lookup(&self, var: String) -> (r: Option<Expr>)
        requires
            env_wf(self@),
        ensures
            match r {
                Some(e) => lookup_v(self@, var@) == Some(e@),
                None => lookup_v(self@, var@) is None,
            },
    {
        let mut h: usize = self.active;
        loop
            invariant
                env_wf(self@),
                h < self@.frames.len(),
                lookup_from_v(self@, h as nat, var@) == lookup_v(self@, var@),
            decreases h,
        {
            let f = &self.frames[h];
            let in_frame = frame_lookup(&f.table, &var);
            match in_frame {
                Some(e) => {
                    return Some(e);
                },
                None => {},
            }
            match f.parent {
                Some(p) => {
                    h = p;
                },
                None => {
                    return None;
                },
            }
        }
    }

    /// Looks `var` up, from a string slice.
    pub fn str_lookup(&self, var: &str) -> (r: Option<Expr>)
        requires
            env_wf(self@),
        ensures
            match r {
                Some(e) => lookup_v(self@, var@) == Some(e@),
                None => lookup_v(self@, var@) is None,
            },
    {
        self.lookup(String::from_str(var))
    }

    /// The handle of the active frame's parent, if it has one.
    pub fn parent(&self) -> (r: Option<usize>)
        requires
            env_wf(self@),
        ensures
            match r {
                Some(p) => self@.frames[self@.active as int].parent == Some(p as nat),
                None => self@.frames[self@.active as int].parent is None,
            },
    {
        let f = &self.frames[self.active];
        f.parent
    }

    /// The handle of the active frame.
    pub fn active(&self) -> (h: usize)
        ensures
            h as nat == self@.active,
    {
        self.active
    }

    /// Makes the frame with handle `h` the active one.
    pub fn set_active(&mut self, h: usize)
        requires
            env_wf(old(self)@),
            h < old(self)@.frames.len(),
        ensures
            final(self)@ == (EnvV { active: h as nat, ..old(self)@ }),
            env_wf(final(self)@),
    {
        self.active = h;
    }

    /// Appends a new frame whose parent is the active frame, binding
    /// each formal name positionally to the corresponding argument,
    /// and returns its handle; the active frame does not change.
    pub fn extend(&mut self, vars: Expr, vals: Expr) -> (h: usize)
        requires
            env_wf(old(self)@),
            bindable_v(vars@, vals@),
            expr_wf(vals@, old(self)@.frames.len()),
        ensures
            final(self)@ == extend_v(old(self)@, old(self)@.active, vars@, vals@),
            env_wf(final(self)@),
            h as nat == old(self)@.frames.len(),
    {
        let mut table: Vec<Binding> = Vec::new();
        let mut cur_vars = &vars;
        let mut cur_vals = &vals;
        while cur_vars.is_pair() && !cur_vars.is_empty()
            invariant
                bindable_v(cur_vars@, cur_vals@),
                expr_wf(cur_vals@, old(self)@.frames.len()),
                table_view(table@) + bindings_of_v(cur_vars@, cur_vals@) == bindings_of_v(
                    vars@,
                    vals@,
                ),
                forall|j: int|
                    0 <= j < table@.len() ==> expr_wf(
                        #[trigger] table_view(table@)[j].val,
                        old(self)@.frames.len(),
                    ),
                self == old(self),
            decreases cur_vars,
        {
            match cur_vars {
                Expr::Pair(n, vr) => {
                    match cur_vals {
                        Expr::Pair(v, lr) => {
                            let ghost prev = table@;
                            table.push(Binding { name: n.as_str(), val: (**v).clone() });
                            proof {
                                assert(table_view(table@) =~= table_view(prev).push(
                                    BindingV { name: text_v(n@), val: v@ },
                                ));
                                assert(table_view(table@) + bindings_of_v(vr@, lr@)
                                    =~= table_view(prev) + bindings_of_v(cur_vars@, cur_vals@));
                            }
                            cur_vars = &**vr;
                            cur_vals = &**lr;
                        },
                        _ => {
                            proof {
                                assert(false);
                            }
                        },
                    }
                },
                _ => {
                    proof {
                        assert(false);
                    }
                },
            }
        }
        proof {
            assert(table_view(table@) =~= table_view(table@) + bindings_of_v(
                cur_vars@,
                cur_vals@,
            ));
        }
        let h = self.frames.len();
        let a = self.active;
        self.frames.push(Frame { table, parent: Some(a) });
        proof {
            assert(self@.frames =~~= extend_v(old(self)@, old(self)@.active, vars@, vals@).frames);
            assert forall|i: int| 0 <= i < self@.frames.len() implies frame_wf(
                #[trigger] self@.frames[i],
                i,
                self@.frames.len(),
            ) by {
                if i < old(self)@.frames.len() {
                    assert(frame_wf(old(self)@.frames[i], i, old(self)@.frames.len()));
                    assert forall|j: int|
                        0 <= j < self@.frames[i].table.len() implies expr_wf(
                        #[trigger] self@.frames[i].table[j].val,
                        self@.frames.len(),
                    ) by {
                        lemma_expr_wf_mono(
                            self@.frames[i].table[j].val,
                            old(self)@.frames.len(),
                            self@.frames.len(),
                        );
                    }
                } else {
                    lemma_bindings_wf(vars@, vals@, old(self)@.frames.len());
                    assert forall|j: int|
                        0 <= j < self@.frames[i].table.len() implies expr_wf(
                        #[trigger] self@.frames[i].table[j].val,
                        self@.frames.len(),
                    ) by {
                        lemma_expr_wf_mono(
                            self@.frames[i].table[j].val,
                            old(self)@.frames.len(),
                            self@.frames.len(),
                        );
                    }
                }
            }
        }
        h
    }
}

/// Each value bound by pairing formals with well-formed arguments is
/// itself well formed.
proof fn lemma_bindings_wf(vars: ExprV, vals: ExprV, n: nat)
    requires
        expr_wf(vals, n),
    ensures
        forall|j: int|
            0 <= j < bindings_of_v(vars, vals).len() ==> expr_wf(
                #[trigger] bindings_of_v(vars, vals)[j].val,
                n,
            ),
    decreases vars,
{
    match vars {
        ExprV::Pair(nm, vr) => match vals {
            ExprV::Pair(v, lr) => {
                lemma_bindings_wf(*vr, *lr, n);
            },
            _ => {},
        },
        _ => {},
    }
}

/// The environment of a single empty frame, before the builtin table
/// is registered.
pub open spec fn empty_env_v() -> EnvV {
    EnvV {
        frames: seq![FrameV { table: Seq::empty(), parent: None }],
        active: 0,
    }
}

/// The builtin table: the fixed native procedures under their fixed
/// names, in registration order.
pub open spec fn builtins_v() -> Seq<BindingV> {
    seq![
        BindingV { name: "null?"@, val: ExprV::Proc(Builtin::IsNull) },
        BindingV { name: "boolean?"@, val: ExprV::Proc(Builtin::IsBoolean) },
        BindingV { name: "symbol?"@, val: ExprV::Proc(Builtin::IsSymbol) },
        BindingV { name: "string?"@, val: ExprV::Proc(Builtin::IsString) },
        BindingV { name: "char?"@, val: ExprV::Proc(Builtin::IsChar) },
        BindingV { name: "integer?"@, val: ExprV::Proc(Builtin::IsInteger) },
        BindingV { name: "+"@, val: ExprV::Proc(Builtin::Plus) },
        BindingV { name: "-"@, val: ExprV::Proc(Builtin::Minus) },
        BindingV { name: "*"@, val: ExprV::Proc(Builtin::Times) },
        BindingV { name: "/"@, val: ExprV::Proc(Builtin::Quotient) },
        BindingV { name: "eq?"@, val: ExprV::Proc(Builtin::Equals) },
        BindingV { name: "="@, val: ExprV::Proc(Builtin::Equals) },
        BindingV { name: "<"@, val: ExprV::Proc(Builtin::Less) },
        BindingV { name: ">"@, val: ExprV::Proc(Builtin::Greater) },
        BindingV { name: "pair?"@, val: ExprV::Proc(Builtin::IsPair) },
        BindingV { name: "car"@, val: ExprV::Proc(Builtin::First) },
        BindingV { name: "cdr"@, val: ExprV::Proc(Builtin::Rest) },
        BindingV { name: "cons"@, val: ExprV::Proc(Builtin::Cons) },
    ]
}

/// The root environment: one frame holding the builtin table.
pub open spec fn initial_env_v() -> EnvV {
    EnvV {
        frames: seq![FrameV { table: builtins_v(), parent: None }],
        active: 0,
    }
}

impl Env {
    /// The root environment, pre-populated with the builtin table.
    pub fn new() -> (r: Env)
        ensures
            r@ == initial_env_v(),
            env_wf(r@),
    {
        let mut frames: Vec<Frame> = Vec::new();
        frames.push(Frame { table: Vec::new(), parent: None });
        let mut res = Env { frames, active: 0 };
        proof {
            assert(res@ =~~= empty_env_v());
        }
        res.setup();
        res
    }

    /// Registers the fixed set of native procedures under their fixed
    /// names.
    fn setup(&mut self)
        requires
            old(self)@ == empty_env_v(),
        ensures
            final(self)@ == initial_env_v(),
            env_wf(final(self)@),
    {
        self.str_def("null?", Expr::new_proc(Builtin::IsNull));
        self.str_def("boolean?", Expr::new_proc(Builtin::IsBoolean));
        self.str_def("symbol?", Expr::new_proc(Builtin::IsSymbol));
        self.str_def("string?", Expr::new_proc(Builtin::IsString));
        self.str_def("char?", Expr::new_proc(Builtin::IsChar));
        self.str_def("integer?", Expr::new_proc(Builtin::IsInteger));
        self.str_def("+", Expr::new_proc(Builtin::Plus));
        self.str_def("-", Expr::new_proc(Builtin::Minus));
        self.str_def("*", Expr::new_proc(Builtin::Times));
        self.str_def("/", Expr::new_proc(Builtin::Quotient));
        self.str_def("eq?", Expr::new_proc(Builtin::Equals));
        self.str_def("=", Expr::new_proc(Builtin::Equals));
        self.str_def("<", Expr::new_proc(Builtin::Less));
        self.str_def(">", Expr::new_proc(Builtin::Greater));
        self.str_def("pair?", Expr::new_proc(Builtin::IsPair));
        self.str_def("car", Expr::new_proc(Builtin::First));
        self.str_def("cdr", Expr::new_proc(Builtin::Rest));
        self.str_def("cons", Expr::new_proc(Builtin::Cons));
        proof {
            assert(self@.frames[0].table =~= builtins_v());
            assert(self@ =~~= initial_env_v());
        }
    }
}

/// Truncating integer division, the machine's own: the quotient is
/// rounded toward zero.
pub open spec fn trunc_div(x: int, d: int) -> int
    recommends
        d != 0,
{
    if x == 0 {
        0
    } else if x > 0 && d > 0 {
        x / d
    } else if x < 0 && d < 0 {
        (x * -1) / (d * -1)
    } else if x < 0 {
        ((x * -1) / d) * -1
    } else {
        (x / (d * -1)) * -1
    }
}

/// Folds addition left to right over an argument list, watching the
/// fixed-width range at each step.
pub open spec fn fold_add_v(args: ExprV, acc: int) -> Result<int, EvalErr>
    decreases args,
{
    match args {
        ExprV::Nil => Ok(acc),
        ExprV::Pair(x, rest) => match *x {
            ExprV::Int(i) => if acc + i < isize::MIN as int || acc + i > isize::MAX as int {
                Err(EvalErr::Overflow)
            } else {
                fold_add_v(*rest, acc + i)
            },
            _ => Err(EvalErr::TypeMismatch),
        },
        _ => Err(EvalErr::TypeMismatch),
    }
}

/// Folds subtraction left to right over an argument list.
pub open spec fn fold_sub_v(args: ExprV, acc: int) -> Result<int, EvalErr>
    decreases args,
{
    match args {
        ExprV::Nil => Ok(acc),
        ExprV::Pair(x, rest) => match *x {
            ExprV::Int(i) => if acc - i < isize::MIN as int || acc - i > isize::MAX as int {
                Err(EvalErr::Overflow)
            } else {
                fold_sub_v(*rest, acc - i)
            },
            _ => Err(EvalErr::TypeMismatch),
        },
        _ => Err(EvalErr::TypeMismatch),
    }
}

/// Folds multiplication left to right over an argument list.
pub open spec fn fold_mul_v(args: ExprV, acc: int) -> Result<int, EvalErr>
    decreases args,
{
    match args {
        ExprV::Nil => Ok(acc),
        ExprV::Pair(x, rest) => match *x {
            ExprV::Int(i) => if acc * i < isize::MIN as int || acc * i > isize::MAX as int {
                Err(EvalErr::Overflow)
            } else {
                fold_mul_v(*rest, acc * i)
            },
            _ => Err(EvalErr::TypeMismatch),
        },
        _ => Err(EvalErr::TypeMismatch),
    }
}

/// Folds division left to right; a zero divisor yields the designated
/// failure symbol rather than an error.
pub open spec fn fold_div_v(args: ExprV, acc: int) -> Result<ExprV, EvalErr>
    decreases args,
{
    match args {
        ExprV::Nil => Ok(ExprV::Int(acc)),
        ExprV::Pair(x, rest) => match *x {
            ExprV::Int(n) => if n == 0 {
                Ok(ExprV::Sym("fail"@))
            } else if trunc_div(acc, n) < isize::MIN as int || trunc_div(acc, n)
                > isize::MAX as int {
                Err(EvalErr::Overflow)
            } else {
                fold_div_v(*rest, trunc_div(acc, n))
            },
            _ => Err(EvalErr::TypeMismatch),
        },
        _ => Err(EvalErr::TypeMismatch),
    }
}

/// Whether the first argument is less than each further argument; the
/// scan stops at the first failure.
pub open spec fn fold_less_v(args: ExprV, val: int) -> Result<bool, EvalErr>
    decreases args,
{
    match args {
        ExprV::Nil => Ok(true),
        ExprV::Pair(x, rest) => match *x {
            ExprV::Int(i) => if val >= i {
                Ok(false)
            } else {
                fold_less_v(*rest, val)
            },
            _ => Err(EvalErr::TypeMismatch),
        },
        _ => Err(EvalErr::TypeMismatch),
    }
}

/// Whether the first argument is greater than each further argument.
pub open spec fn fold_greater_v(args: ExprV, val: int) -> Result<bool, EvalErr>
    decreases args,
{
    match args {
        ExprV::Nil => Ok(true),
        ExprV::Pair(x, rest) => match *x {
            ExprV::Int(i) => if val <= i {
                Ok(false)
            } else {
                fold_greater_v(*rest, val)
            },
            _ => Err(EvalErr::TypeMismatch),
        },
        _ => Err(EvalErr::TypeMismatch),
    }
}

/// Wraps an integer fold result as an expression result.
pub open spec fn int_res_v(x: Result<int, EvalErr>) -> Result<ExprV, EvalErr> {
    match x {
        Ok(i) => Ok(ExprV::Int(i)),
        Err(e) => Err(e),
    }
}

/// Wraps a comparison fold result as an expression result.
pub open spec fn bool_res_v(x: Result<bool, EvalErr>) -> Result<ExprV, EvalErr> {
    match x {
        Ok(c) => Ok(ExprV::Bool(c)),
        Err(e) => Err(e),
    }
}

/// What each native procedure returns on an evaluated argument list.
pub open spec fn apply_builtin_v(b: Builtin, args: ExprV) -> Result<ExprV, EvalErr> {
    match b {
        Builtin::IsNull => if args is Pair {
            Ok(ExprV::Bool(car_v(args) is Nil))
        } else {
            Err(EvalErr::TypeMismatch)
        },
        Builtin::IsBoolean => if args is Pair {
            Ok(ExprV::Bool(car_v(args) is Bool))
        } else {
            Err(EvalErr::TypeMismatch)
        },
        Builtin::IsSymbol => if args is Pair {
            Ok(ExprV::Bool(car_v(args) is Sym))
        } else {
            Err(EvalErr::TypeMismatch)
        },
        Builtin::IsString => if args is Pair {
            Ok(ExprV::Bool(car_v(args) is Str))
        } else {
            Err(EvalErr::TypeMismatch)
        },
        Builtin::IsChar => if args is Pair {
            Ok(ExprV::Bool(car_v(args) is Char))
        } else {
            Err(EvalErr::TypeMismatch)
        },
        Builtin::IsInteger => if args is Pair {
            Ok(ExprV::Bool(car_v(args) is Int))
        } else {
            Err(EvalErr::TypeMismatch)
        },
        Builtin::IsPair => if args is Pair {
            Ok(ExprV::Bool(car_v(args) is Pair || car_v(args) is Nil))
        } else {
            Err(EvalErr::TypeMismatch)
        },
        Builtin::Plus => int_res_v(fold_add_v(args, 0)),
        Builtin::Minus => match args {
            ExprV::Pair(x, rest) => match *x {
                ExprV::Int(i) => int_res_v(fold_sub_v(*rest, i)),
                _ => Err(EvalErr::TypeMismatch),
            },
            _ => Err(EvalErr::TypeMismatch),
        },
        Builtin::Times => int_res_v(fold_mul_v(args, 1)),
        Builtin::Quotient => match args {
            ExprV::Pair(x, rest) => match *x {
                ExprV::Int(i) => fold_div_v(*rest, i),
                _ => Err(EvalErr::TypeMismatch),
            },
            _ => Err(EvalErr::TypeMismatch),
        },
        Builtin::Equals => if args is Pair && cdr_v(args) is Pair {
            Ok(ExprV::Bool(car_v(args) == car_v(cdr_v(args))))
        } else {
            Err(EvalErr::TypeMismatch)
        },
        Builtin::Less => match args {
            ExprV::Pair(x, rest) => match *x {
                ExprV::Int(i) => bool_res_v(fold_less_v(*rest, i)),
                _ => Err(EvalErr::TypeMismatch),
            },
            _ => Err(EvalErr::TypeMismatch),
        },
        Builtin::Greater => match args {
            ExprV::Pair(x, rest) => match *x {
                ExprV::Int(i) => bool_res_v(fold_greater_v(*rest, i)),
                _ => Err(EvalErr::TypeMismatch),
            },
            _ => Err(EvalErr::TypeMismatch),
        },
        Builtin::First => if args is Pair && car_v(args) is Pair {
            Ok(car_v(car_v(args)))
        } else {
            Err(EvalErr::TypeMismatch)
        },
        Builtin::Rest => if args is Pair && car_v(args) is Pair {
            Ok(cdr_v(car_v(args)))
        } else {
            Err(EvalErr::TypeMismatch)
        },
        Builtin::Cons => if args is Pair && cdr_v(args) is Pair {
            Ok(ExprV::Pair(
                Box::new(car_v(args)),
                Box::new(ExprV::Pair(Box::new(car_v(cdr_v(args))), Box::new(ExprV::Nil))),
            ))
        } else {
            Err(EvalErr::TypeMismatch)
        },
    }
}

/// Adds a variable-length argument list, seeded at zero.
pub fn add(args: &Expr) -> (r: Result<Expr, EvalErr>)
    ensures
        res_v(r) == apply_builtin_v(Builtin::Plus, args@),
{
    fold_add(args, 0)
}

fn fold_add(args: &Expr, acc: isize) -> (r: Result<Expr, EvalErr>)
    ensures
        res_v(r) == int_res_v(fold_add_v(args@, acc as int)),
    decreases args,
{
    match args {
        Expr::Nil => Ok(Expr::Int(acc)),
        Expr::Pair(x, rest) => {
            proof {
                assert((**x)@ == car_v(args@));
                assert((**rest)@ == cdr_v(args@));
            }
            match &**x {
                Expr::Int(i) => match acc.checked_add(*i) {
                    Some(s) => fold_add(&**rest, s),
                    None => Err(EvalErr::Overflow),
                },
                _ => Err(EvalErr::TypeMismatch),
            }
        },
        _ => Err(EvalErr::TypeMismatch),
    }
}

/// Subtracts the rest of the argument list from its first element.
pub fn sub(args: &Expr) -> (r: Result<Expr, EvalErr>)
    ensures
        res_v(r) == apply_builtin_v(Builtin::Minus, args@),
{
    match args {
        Expr::Pair(x, rest) => {
            proof {
                assert((**x)@ == car_v(args@));
                assert((**rest)@ == cdr_v(args@));
            }
            match &**x {
                Expr::Int(i) => fold_sub(&**rest, *i),
                _ => Err(EvalErr::TypeMismatch),
            }
        },
        _ => Err(EvalErr::TypeMismatch),
    }
}

fn fold_sub(args: &Expr, acc: isize) -> (r: Result<Expr, EvalErr>)
    ensures
        res_v(r) == int_res_v(fold_sub_v(args@, acc as int)),
    decreases args,
{
    match args {
        Expr::Nil => Ok(Expr::Int(acc)),
        Expr::Pair(x, rest) => {
            proof {
                assert((**x)@ == car_v(args@));
                assert((**rest)@ == cdr_v(args@));
            }
            match &**x {
                Expr::Int(i) => match acc.checked_sub(*i) {
                    Some(s) => fold_sub(&**rest, s),
                    None => Err(EvalErr::Overflow),
                },
                _ => Err(EvalErr::TypeMismatch),
            }
        },
        _ => Err(EvalErr::TypeMismatch),
    }
}

/// Multiplies a variable-length argument list, seeded at one.
pub fn mul(args: &Expr) -> (r: Result<Expr, EvalErr>)
    ensures
        res_v(r) == apply_builtin_v(Builtin::Times, args@),
{
    fold_mul(args, 1)
}

fn fold_mul(args: &Expr, acc: isize) -> (r: Result<Expr, EvalErr>)
    ensures
        res_v(r) == int_res_v(fold_mul_v(args@, acc as int)),
    decreases args,
{
    match args {
        Expr::Nil => Ok(Expr::Int(acc)),
        Expr::Pair(x, rest) => {
            proof {
                assert((**x)@ == car_v(args@));
                assert((**rest)@ == cdr_v(args@));
            }
            match &**x {
                Expr::Int(i) => match acc.checked_mul(*i) {
                    Some(s) => fold_mul(&**rest, s),
                    None => Err(EvalErr::Overflow),
                },
                _ => Err(EvalErr::TypeMismatch),
            }
        },
        _ => Err(EvalErr::TypeMismatch),
    }
}

/// Divides the first argument by each further argument in turn; a zero
/// divisor yields the designated failure symbol.
pub fn div(args: &Expr) -> (r: Result<Expr, EvalErr>)
    ensures
        res_v(r) == apply_builtin_v(Builtin::Quotient, args@),
{
    match args {
        Expr::Pair(x, rest) => {
            proof {
                assert((**x)@ == car_v(args@));
                assert((**rest)@ == cdr_v(args@));
            }
            match &**x {
                Expr::Int(i) => fold_div(&**rest, *i),
                _ => Err(EvalErr::TypeMismatch),
            }
        },
        _ => Err(EvalErr::TypeMismatch),
    }
}

fn fold_div(args: &Expr, acc: isize) -> (r: Result<Expr, EvalErr>)
    ensures
        res_v(r) == fold_div_v(args@, acc as int),
    decreases args,
{
    match args {
        Expr::Nil => Ok(Expr::Int(acc)),
        Expr::Pair(x, rest) => {
            proof {
                assert((**x)@ == car_v(args@));
                assert((**rest)@ == cdr_v(args@));
            }
            match &**x {
                Expr::Int(n) => if *n == 0 {
                    Ok(Expr::new_sym("fail"))
                } else {
                    match acc.checked_div(*n) {
                        Some(q) => fold_div(&**rest, q),
                        None => Err(EvalErr::Overflow),
                    }
                },
                _ => Err(EvalErr::TypeMismatch),
            }
        },
        _ => Err(EvalErr::TypeMismatch),
    }
}

/// Builds the two-element list `(first second)` out of the first two
/// arguments.
pub fn cons(args: &Expr) -> (r: Result<Expr, EvalErr>)
    ensures
        res_v(r) == apply_builtin_v(Builtin::Cons, args@),
{
    match args {
        Expr::Pair(a, rest) => {
            proof {
                assert((**a)@ == car_v(args@));
                assert((**rest)@ == cdr_v(args@));
            }
            match &**rest {
                Expr::Pair(b, _) => {
                    proof {
                        assert((**b)@ == car_v(cdr_v(args@)));
                    }
                    Ok(Expr::new_pair((**a).clone(), Expr::new_pair((**b).clone(), Expr::Nil)))
                },
                _ => Err(EvalErr::TypeMismatch),
            }
        },
        _ => Err(EvalErr::TypeMismatch),
    }
}

/// Structural equality of the first two arguments, as a boolean value.
pub fn eq(args: &Expr) -> (r: Result<Expr, EvalErr>)
    ensures
        res_v(r) == apply_builtin_v(Builtin::Equals, args@),
{
    match args {
        Expr::Pair(a, rest) => {
            proof {
                assert((**a)@ == car_v(args@));
                assert((**rest)@ == cdr_v(args@));
            }
            match &**rest {
                Expr::Pair(b, _) => {
                    proof {
                        assert((**b)@ == car_v(cdr_v(args@)));
                    }
                    Ok(Expr::Bool(expr_eq(&**a, &**b)))
                },
                _ => Err(EvalErr::TypeMismatch),
            }
        },
        _ => Err(EvalErr::TypeMismatch),
    }
}

/// Whether the first argument is less than each further argument.
pub fn less(args: &Expr) -> (r: Result<Expr, EvalErr>)
    ensures
        res_v(r) == apply_builtin_v(Builtin::Less, args@),
{
    match args {
        Expr::Pair(x, rest) => {
            proof {
                assert((**x)@ == car_v(args@));
                assert((**rest)@ == cdr_v(args@));
            }
            match &**x {
                Expr::Int(i) => fold_less(&**rest, *i),
                _ => Err(EvalErr::TypeMismatch),
            }
        },
        _ => Err(EvalErr::TypeMismatch),
    }
}

fn fold_less(args: &Expr, val: isize) -> (r: Result<Expr, EvalErr>)
    ensures
        res_v(r) == bool_res_v(fold_less_v(args@, val as int)),
    decreases args,
{
    match args {
        Expr::Nil => Ok(Expr::Bool(true)),
        Expr::Pair(x, rest) => {
            proof {
                assert((**x)@ == car_v(args@));
                assert((**rest)@ == cdr_v(args@));
            }
            match &**x {
                Expr::Int(i) => if val >= *i {
                    Ok(Expr::Bool(false))
                } else {
                    fold_less(&**rest, val)
                },
                _ => Err(EvalErr::TypeMismatch),
            }
        },
        _ => Err(EvalErr::TypeMismatch),
    }
}

/// Whether the first argument is greater than each further argument.
pub fn large(args: &Expr) -> (r: Result<Expr, EvalErr>)
    ensures
        res_v(r) == apply_builtin_v(Builtin::Greater, args@),
{
    match args {
        Expr::Pair(x, rest) => {
            proof {
                assert((**x)@ == car_v(args@));
                assert((**rest)@ == cdr_v(args@));
            }
            match &**x {
                Expr::Int(i) => fold_greater(&**rest, *i),
                _ => Err(EvalErr::TypeMismatch),
            }
        },
        _ => Err(EvalErr::TypeMismatch),
    }
}

fn fold_greater(args: &Expr, val: isize) -> (r: Result<Expr, EvalErr>)
    ensures
        res_v(r) == bool_res_v(fold_greater_v(args@, val as int)),
    decreases args,
{
    match args {
        Expr::Nil => Ok(Expr::Bool(true)),
        Expr::Pair(x, rest) => {
            proof {
                assert((**x)@ == car_v(args@));
                assert((**rest)@ == cdr_v(args@));
            }
            match &**x {
                Expr::Int(i) => if val <= *i {
                    Ok(Expr::Bool(false))
                } else {
                    fold_greater(&**rest, val)
                },
                _ => Err(EvalErr::TypeMismatch),
            }
        },
        _ => Err(EvalErr::TypeMismatch),
    }
}

/// The first component of the first argument, which must be a pair.
pub fn car(args: &Expr) -> (r: Result<Expr, EvalErr>)
    ensures
        res_v(r) == apply_builtin_v(Builtin::First, args@),
{
    match args {
        Expr::Pair(f, _) => {
            proof {
                assert((**f)@ == car_v(args@));
            }
            match &**f {
                Expr::Pair(a, _) => {
                    proof {
                        assert((**a)@ == car_v(car_v(args@)));
                    }
                    Ok((**a).clone())
                },
                _ => Err(EvalErr::TypeMismatch),
            }
        },
        _ => Err(EvalErr::TypeMismatch),
    }
}

/// The second component of the first argument, which must be a pair.
pub fn cdr(args: &Expr) -> (r: Result<Expr, EvalErr>)
    ensures
        res_v(r) == apply_builtin_v(Builtin::Rest, args@),
{
    match args {
        Expr::Pair(f, _) => {
            proof {
                assert((**f)@ == car_v(args@));
            }
            match &**f {
                Expr::Pair(_, d) => {
                    proof {
                        assert((**d)@ == cdr_v(car_v(args@)));
                    }
                    Ok((**d).clone())
                },
                _ => Err(EvalErr::TypeMismatch),
            }
        },
        _ => Err(EvalErr::TypeMismatch),
    }
}

/// Invokes the native procedure `b` on the evaluated argument list.
pub fn apply_builtin(b: Builtin, args: &Expr) -> (r: Result<Expr, EvalErr>)
    ensures
        res_v(r) == apply_builtin_v(b, args@),
{
    match b {
        Builtin::IsNull => match args {
            Expr::Pair(x, _) => Ok(Expr::Bool(x.is_empty())),
            _ => Err(EvalErr::TypeMismatch),
        },
        Builtin::IsBoolean => match args {
            Expr::Pair(x, _) => Ok(Expr::Bool(x.is_bool())),
            _ => Err(EvalErr::TypeMismatch),
        },
        Builtin::IsSymbol => match args {
            Expr::Pair(x, _) => Ok(Expr::Bool(x.is_sym())),
            _ => Err(EvalErr::TypeMismatch),
        },
        Builtin::IsString => match args {
            Expr::Pair(x, _) => Ok(Expr::Bool(x.is_str())),
            _ => Err(EvalErr::TypeMismatch),
        },
        Builtin::IsChar => match args {
            Expr::Pair(x, _) => Ok(Expr::Bool(x.is_char())),
            _ => Err(EvalErr::TypeMismatch),
        },
        Builtin::IsInteger => match args {
            Expr::Pair(x, _) => Ok(Expr::Bool(x.is_int())),
            _ => Err(EvalErr::TypeMismatch),
        },
        Builtin::IsPair => match args {
            Expr::Pair(x, _) => Ok(Expr::Bool(x.is_pair())),
            _ => Err(EvalErr::TypeMismatch),
        },
        Builtin::Plus => crate::env::add(args),
        Builtin::Minus => crate::env::sub(args),
        Builtin::Times => crate::env::mul(args),
        Builtin::Quotient => crate::env::div(args),
        Builtin::Equals => crate::env::eq(args),
        Builtin::Less => crate::env::less(args),
        Builtin::Greater => crate::env::large(args),
        Builtin::First => crate::env::car(args),
        Builtin::Rest => crate::env::cdr(args),
        Builtin::Cons => crate::env::cons(args),
    }
}

/// A value found in a well-formed table is well formed.
proof fn lemma_frame_lookup_wf(table: Seq<BindingV>, name: Seq<char>, n: nat)
    requires
        forall|j: int| 0 <= j < table.len() ==> expr_wf(#[trigger] table[j].val, n),
    ensures
        frame_lookup_v(table, name) matches Some(v) ==> expr_wf(v, n),
    decreases table.len(),
{
    if table.len() > 0 && !(table.last().name == name) {
        lemma_frame_lookup_wf(table.drop_last(), name, n);
    }
}

/// A value found anywhere along a well-formed chain is well formed.
pub proof fn lemma_lookup_wf(env: EnvV, h: nat, name: Seq<char>)
    requires
        env_wf(env),
    ensures
        lookup_from_v(env, h, name) matches Some(v) ==> expr_wf(v, env.frames.len()),
    decreases h,
{
    if h < env.frames.len() {
        lemma_frame_lookup_wf(env.frames[h as int].table, name, env.frames.len());
        match env.frames[h as int].parent {
            Some(p) => {
                if p < h {
                    lemma_lookup_wf(env, p, name);
                }
            },
            None => {},
        }
    }
}

/// Defining a well-formed value keeps the environment well formed and
/// the arena's shape unchanged.
pub proof fn lemma_define_wf(env: EnvV, name: Seq<char>, val: ExprV)
    requires
        env_wf(env),
        expr_wf(val, env.frames.len()),
    ensures
        env_wf(define_v(env, name, val)),
        define_v(env, name, val).frames.len() == env.frames.len(),
        define_v(env, name, val).active == env.active,
{
    let e2 = define_v(env, name, val);
    assert forall|i: int| 0 <= i < e2.frames.len() implies frame_wf(
        #[trigger] e2.frames[i],
        i,
        e2.frames.len(),
    ) by {
        assert(frame_wf(env.frames[i], i, env.frames.len()));
        if i == env.active {
            let t2 = e2.frames[i].table;
            assert forall|j: int| 0 <= j < t2.len() implies expr_wf(
                #[trigger] t2[j].val,
                e2.frames.len(),
            ) by {
                if j < t2.len() - 1 {
                    assert(t2[j] == env.frames[i].table[j]);
                }
            }
        }
    }
}

/// A quotient chain only ever yields integers or the failure symbol,
/// both well formed anywhere.
proof fn lemma_fold_div_wf(args: ExprV, acc: int, n: nat)
    ensures
        fold_div_v(args, acc) matches Ok(v) ==> expr_wf(v, n),
    decreases args,
{
    match args {
        ExprV::Pair(x, rest) => match *x {
            ExprV::Int(d) => {
                if d != 0 {
                    lemma_fold_div_wf(*rest, trunc_div(acc, d), n);
                }
            },
            _ => {},
        },
        _ => {},
    }
}

/// A native procedure's result is well formed whenever its argument
/// list is: it is built of atoms and of parts of the arguments.
pub proof fn lemma_apply_builtin_wf(b: Builtin, args: ExprV, n: nat)
    requires
        expr_wf(args, n),
    ensures
        apply_builtin_v(b, args) matches Ok(v) ==> expr_wf(v, n),
{
    if args is Pair {
        assert(expr_wf(car_v(args), n));
        assert(expr_wf(cdr_v(args), n));
        if car_v(args) is Pair {
            assert(expr_wf(car_v(car_v(args)), n));
            assert(expr_wf(cdr_v(car_v(args)), n));
        }
        if cdr_v(args) is Pair {
            assert(expr_wf(car_v(cdr_v(args)), n));
            assert(expr_wf(ExprV::Nil, n));
            assert(expr_wf(ExprV::Pair(Box::new(car_v(cdr_v(args))), Box::new(ExprV::Nil)), n));
            assert(expr_wf(
                ExprV::Pair(
                    Box::new(car_v(args)),
                    Box::new(
                        ExprV::Pair(Box::new(car_v(cdr_v(args))), Box::new(ExprV::Nil)),
                    ),
                ),
                n,
            ));
        }
    }
    match b {
        Builtin::Quotient => match args {
            ExprV::Pair(x, rest) => match *x {
                ExprV::Int(i) => {
                    lemma_fold_div_wf(*rest, i, n);
                },
                _ => {},
            },
            _ => {},
        },
        _ => {},
    }
}

/// Scans one frame's table for `var`, later entries first.
fn frame_lookup(table: &Vec<Binding>, var: &String) -> (r: Option<Expr>)
    ensures
        match r {
            Some(e) => frame_lookup_v(table_view(table@), var@) == Some(e@),
            None => frame_lookup_v(table_view(table@), var@) is None,
        },
{
    let mut i: usize = table.len();
    proof {
        assert(table_view(table@).take(i as int) =~= table_view(table@));
    }
    while i > 0
        invariant
            i <= table.len(),
            frame_lookup_v(table_view(table@).take(i as int), var@) == frame_lookup_v(
                table_view(table@),
                var@,
            ),
        decreases i,
    {
        i = i - 1;
        let b = &table[i];
        proof {
            assert(table_view(table@).take(i + 1).last() == table@[i as int]@);
            assert(table_view(table@).take(i + 1).drop_last() =~= table_view(table@).take(
                i as int,
            ));
        }
        if b.name == *var {
            return Some(b.val.clone());
        }
    }
    proof {
        assert(table_view(table@).take(0) =~= Seq::<BindingV>::empty());
    }
    None
}

} // verus!
