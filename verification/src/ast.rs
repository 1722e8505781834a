use vstd::prelude::*;

verus! {

/// Identifier of one of the fixed native procedures that the root
/// environment is populated with.  The set is closed, so a native
/// procedure value is represented by this tag; two procedure values are
/// the same procedure exactly when their tags are equal.
#[derive(Clone, Copy, Debug, PartialEq, Eq, Structural)]
pub enum Builtin {
    IsNull,
    IsBoolean,
    IsSymbol,
    IsString,
    IsChar,
    IsInteger,
    IsPair,
    Plus,
    Minus,
    Times,
    Quotient,
    Equals,
    Less,
    Greater,
    First,
    Rest,
    Cons,
}

/// A native procedure value: a reference to one of the built-in
/// procedures, compared by identity of the procedure.
#[derive(Clone, Copy, Debug, PartialEq, Eq, Structural)]
pub struct ProcFunc(pub Builtin);

impl ProcFunc {
    /// The built-in procedure this value refers to.
    pub fn func(&self) -> (r: Builtin)
        ensures
            r == self.0,
    {
        self.0
    }
}

/// The conditions on which an evaluation step fails.  In place of
/// aborting, every evaluation function returns one of these as a typed
/// error.
#[derive(Clone, Copy, Debug, PartialEq, Eq, Structural)]
pub enum EvalErr {
    /// An accessor was about to be applied to the wrong variant.
    TypeMismatch,
    /// A lookup walked the whole environment chain without a match.
    UnboundVariable,
    /// A special form's shape does not match what its evaluator
    /// assumes.
    MalformedForm,
    /// A closure call's formal and argument lists differ in length.
    ArityMismatch,
    /// An arithmetic step left the fixed-width integer range.
    Overflow,
    /// The nesting budget of the evaluator was exhausted.
    OutOfFuel,
}

/// The model of an evaluation result: the view of the expression on
/// success, the error unchanged.
pub open spec fn res_v(r: Result<Expr, EvalErr>) -> Result<ExprV, EvalErr> {
    match r {
        Ok(e) => Ok(e@),
        Err(x) => Err(x),
    }
}

/// The single tagged-union value/code representation of the language.
///
/// A `CompProc` closure stores the formal parameter list, the body, and
/// a handle (index) into the arena of environment frames that the
/// evaluator owns; the handle names the closure's captured lexical
/// environment.
#[derive(Debug, PartialEq)]
pub enum Expr {
    Int(isize),
    Str(String),
    Sym(String),
    Bool(bool),
    Char(char),
    Pair(Box<Expr>, Box<Expr>),
    Proc(ProcFunc),
    CompProc(Box<Expr>, Box<Expr>, usize),
    Nil,
}

/// The mathematical model of an expression: text as `Seq<char>`,
/// integers as `int`, and a closure's captured environment as the
/// number of its frame in the arena.
#[verifier::ext_equal]
pub enum ExprV {
    Int(int),
    Str(Seq<char>),
    Sym(Seq<char>),
    Bool(bool),
    Char(char),
    Pair(Box<ExprV>, Box<ExprV>),
    Proc(Builtin),
    CompProc(Box<ExprV>, Box<ExprV>, nat),
    Nil,
}

/// The model an expression denotes.
pub open spec fn expr_view(e: Expr) -> ExprV
    decreases e,
{
    match e {
        Expr::Int(i) => ExprV::Int(i as int),
        Expr::Str(s) => ExprV::Str(s@),
        Expr::Sym(s) => ExprV::Sym(s@),
        Expr::Bool(b) => ExprV::Bool(b),
        Expr::Char(c) => ExprV::Char(c),
        Expr::Pair(a, d) => ExprV::Pair(Box::new(expr_view(*a)), Box::new(expr_view(*d))),
        Expr::Proc(p) => ExprV::Proc(p.0),
        Expr::CompProc(p, b, h) => ExprV::CompProc(
            Box::new(expr_view(*p)),
            Box::new(expr_view(*b)),
            h as nat,
        ),
        Expr::Nil => ExprV::Nil,
    }
}

impl View for Expr {
    type V = ExprV;

    open spec fn view(&self) -> ExprV {
        expr_view(*self)
    }
}

impl Expr {
    /// True for `Pair` and for `Nil`, so that "rest of list" checks are
    /// uniform over proper lists.
    pub fn is_pair(&self) -> (r: bool)
        ensures
            r == (self@ is Pair || self@ is Nil),
    {
        match self {
            Expr::Pair(_, _) => true,
            Expr::Nil => true,
            _ => false,
        }
    }

    /// True exactly for the empty-list terminator.
    pub fn is_empty(&self) -> (r: bool)
        ensures
            r == (self@ is Nil),
    {
        match self {
            Expr::Nil => true,
            _ => false,
        }
    }

    /// True exactly for user-defined closures.
    pub fn is_cproc(&self) -> (r: bool)
        ensures
            r == (self@ is CompProc),
    {
        match self {
            Expr::CompProc(_, _, _) => true,
            _ => false,
        }
    }

    /// True exactly for the self-evaluating variants.
    pub fn is_self(&self) -> (r: bool)
        ensures
            r == is_self_v(self@),
    {
        match self {
            Expr::Bool(_) => true,
            Expr::Int(_) => true,
            Expr::Char(_) => true,
            Expr::Str(_) => true,
            _ => false,
        }
    }
}

/// The self-evaluating expressions: these evaluate to themselves with
/// no environment lookup.
pub open spec fn is_self_v(e: ExprV) -> bool {
    e is Bool || e is Int || e is Char || e is Str
}

/// An expression with no closure inside: such an expression never
/// names an environment frame, so it is meaningful for any arena.
/// Everything the reader produces is of this kind.
pub open spec fn expr_closed(e: ExprV) -> bool
    decreases e,
{
    match e {
        ExprV::Pair(a, d) => expr_closed(*a) && expr_closed(*d),
        ExprV::CompProc(_, _, _) => false,
        _ => true,
    }
}

/// The first component of a pair.
pub open spec fn car_v(e: ExprV) -> ExprV
    recommends
        e is Pair,
{
    match e {
        ExprV::Pair(a, _) => *a,
        _ => ExprV::Nil,
    }
}

/// The second component of a pair.
pub open spec fn cdr_v(e: ExprV) -> ExprV
    recommends
        e is Pair,
{
    match e {
        ExprV::Pair(_, d) => *d,
        _ => ExprV::Nil,
    }
}

/// The text carried by a string or symbol.
pub open spec fn text_v(e: ExprV) -> Seq<char>
    recommends
        e is Str || e is Sym,
{
    match e {
        ExprV::Str(s) => s,
        ExprV::Sym(s) => s,
        _ => Seq::empty(),
    }
}

impl Clone for Expr {
    /// A structural copy: the clone denotes the same expression.
    fn clone(&self) -> (res: Expr)
        ensures
            res@ == self@,
        decreases self,
    {
        match self {
            Expr::Int(i) => Expr::Int(*i),
            Expr::Str(s) => Expr::Str(s.clone()),
            Expr::Sym(s) => Expr::Sym(s.clone()),
            Expr::Bool(b) => Expr::Bool(*b),
            Expr::Char(c) => Expr::Char(*c),
            Expr::Pair(a, d) => Expr::Pair(Box::new((**a).clone()), Box::new((**d).clone())),
            Expr::Proc(p) => Expr::Proc(*p),
            Expr::CompProc(p, b, h) => Expr::CompProc(
                Box::new((**p).clone()),
                Box::new((**b).clone()),
                *h,
            ),
            Expr::Nil => Expr::Nil,
        }
    }
}

impl Expr {
    /// Builds the pair with the two given components.
    pub fn new_pair(car: Expr, cdr: Expr) -> (r: Expr)
        ensures
            r@ == ExprV::Pair(Box::new(car@), Box::new(cdr@)),
    {
        Expr::Pair(Box::new(car), Box::new(cdr))
    }

    /// Builds a string expression from the given text.
    pub fn new_str(val: &str) -> (r: Expr)
        ensures
            r@ == ExprV::Str(val@),
    {
        Expr::Str(String::from_str(val))
    }

    /// Builds a symbol from the given text.
    pub fn new_sym(val: &str) -> (r: Expr)
        ensures
            r@ == ExprV::Sym(val@),
    {
        Expr::Sym(String::from_str(val))
    }

    /// Builds a native-procedure value from a built-in tag.
    pub fn new_proc(func: Builtin) -> (r: Expr)
        ensures
            r@ == ExprV::Proc(func),
    {
        Expr::Proc(ProcFunc(func))
    }

    /// Builds a closure from a formal-parameter list, a body, and the
    /// handle of the captured environment frame.
    pub fn new_cproc(params: Expr, body: Expr, env: usize) -> (r: Expr)
        ensures
            r@ == ExprV::CompProc(Box::new(params@), Box::new(body@), env as nat),
    {
        Expr::CompProc(Box::new(params), Box::new(body), env)
    }

    /// True for the boolean truth value.
    pub fn is_true(&self) -> (r: bool)
        requires
            self@ is Bool,
        ensures
            r == (self@ == ExprV::Bool(true)),
    {
        self.as_bool()
    }

    /// True for the boolean false value.
    pub fn is_false(&self) -> (r: bool)
        requires
            self@ is Bool,
        ensures
            r == (self@ == ExprV::Bool(false)),
    {
        !self.as_bool()
    }

    /// True when the rest of the list after this pair is empty.
    pub fn is_last(&self) -> (r: bool)
        requires
            self@ is Pair,
        ensures
            r == (cdr_v(self@) is Nil),
    {
        self.cdr_ref().is_empty()
    }

    /// True exactly for characters.
    pub fn is_char(&self) -> (r: bool)
        ensures
            r == (self@ is Char),
    {
        match self {
            Expr::Char(_) => true,
            _ => false,
        }
    }

    /// True exactly for integers.
    pub fn is_int(&self) -> (r: bool)
        ensures
            r == (self@ is Int),
    {
        match self {
            Expr::Int(_) => true,
            _ => false,
        }
    }

    /// True exactly for symbols.
    pub fn is_sym(&self) -> (r: bool)
        ensures
            r == (self@ is Sym),
    {
        match self {
            Expr::Sym(_) => true,
            _ => false,
        }
    }

    /// True exactly for strings.
    pub fn is_str(&self) -> (r: bool)
        ensures
            r == (self@ is Str),
    {
        match self {
            Expr::Str(_) => true,
            _ => false,
        }
    }

    /// True exactly for native procedures.
    pub fn is_proc(&self) -> (r: bool)
        ensures
            r == (self@ is Proc),
    {
        match self {
            Expr::Proc(_) => true,
            _ => false,
        }
    }

    /// True exactly for booleans.
    pub fn is_bool(&self) -> (r: bool)
        ensures
            r == (self@ is Bool),
    {
        match self {
            Expr::Bool(_) => true,
            _ => false,
        }
    }

    /// The integer payload.
    pub fn as_int(&self) -> (r: isize)
        requires
            self@ is Int,
        ensures
            self@ == ExprV::Int(r as int),
    {
        match self {
            Expr::Int(v) => *v,
            _ => 0,
        }
    }

    /// The boolean payload.
    pub fn as_bool(&self) -> (r: bool)
        requires
            self@ is Bool,
        ensures
            self@ == ExprV::Bool(r),
    {
        match self {
            Expr::Bool(v) => *v,
            _ => false,
        }
    }

    /// The character payload.
    pub fn as_char(&self) -> (r: char)
        requires
            self@ is Char,
        ensures
            self@ == ExprV::Char(r),
    {
        match self {
            Expr::Char(v) => *v,
            _ => ' ',
        }
    }

    /// The native-procedure payload.
    pub fn as_proc(&self) -> (r: ProcFunc)
        requires
            self@ is Proc,
        ensures
            self@ == ExprV::Proc(r.0),
    {
        match self {
            Expr::Proc(v) => *v,
            _ => ProcFunc(Builtin::Cons),
        }
    }

    /// The text of a string or of a symbol.
    pub fn as_str(&self) -> (r: String)
        requires
            self@ is Str || self@ is Sym,
        ensures
            r@ == text_v(self@),
    {
        match self {
            Expr::Str(v) => v.clone(),
            Expr::Sym(v) => v.clone(),
            _ => String::new(),
        }
    }

    /// The first component of a pair, copied out.
    pub fn car(&self) -> (r: Expr)
        requires
            self@ is Pair,
        ensures
            r@ == car_v(self@),
    {
        self.car_ref().clone()
    }

    /// The second component of a pair, copied out.
    pub fn cdr(&self) -> (r: Expr)
        requires
            self@ is Pair,
        ensures
            r@ == cdr_v(self@),
    {
        self.cdr_ref().clone()
    }

    /// The first component of a pair, borrowed.
    pub fn car_ref(&self) -> (r: &Expr)
        requires
            self@ is Pair,
        ensures
            r@ == car_v(self@),
    {
        match self {
            Expr::Pair(a, _) => &**a,
            _ => self,
        }
    }

    /// The second component of a pair, borrowed.
    pub fn cdr_ref(&self) -> (r: &Expr)
        requires
            self@ is Pair,
        ensures
            r@ == cdr_v(self@),
    {
        match self {
            Expr::Pair(_, d) => &**d,
            _ => self,
        }
    }
}

/// Structural equality of expressions: atoms compare by value, pairs
/// element-wise, native procedures by identity of the procedure, and
/// closures by their parts together with the captured frame handle.
pub fn expr_eq(a: &Expr, b: &Expr) -> (r: bool)
    ensures
        r == (a@ == b@),
    decreases a,
{
    match a {
        Expr::Int(x) => match b {
            Expr::Int(y) => *x == *y,
            _ => false,
        },
        Expr::Str(x) => match b {
            Expr::Str(y) => *x == *y,
            _ => false,
        },
        Expr::Sym(x) => match b {
            Expr::Sym(y) => *x == *y,
            _ => false,
        },
        Expr::Bool(x) => match b {
            Expr::Bool(y) => *x == *y,
            _ => false,
        },
        Expr::Char(x) => match b {
            Expr::Char(y) => *x == *y,
            _ => false,
        },
        Expr::Pair(a0, d0) => match b {
            Expr::Pair(a1, d1) => expr_eq(&**a0, &**a1) && expr_eq(&**d0, &**d1),
            _ => false,
        },
        Expr::Proc(p) => match b {
            Expr::Proc(q) => proc_eq(*p, *q),
            _ => false,
        },
        Expr::CompProc(p0, b0, h0) => match b {
            Expr::CompProc(p1, b1, h1) => expr_eq(&**p0, &**p1) && expr_eq(&**b0, &**b1)
                && *h0 == *h1,
            _ => false,
        },
        Expr::Nil => match b {
            Expr::Nil => true,
            _ => false,
        },
    }
}

/// Identity of native procedures: the tags are equal.
pub fn proc_eq(p: ProcFunc, q: ProcFunc) -> (r: bool)
    ensures
        r == (p == q),
{
    p.0 == q.0
}

/// Whether `e` is a pair whose first component is the given symbol.
/// This underlies every special-form recognizer.
pub open spec fn is_tagged_v(e: ExprV, tag: ExprV) -> bool {
    e matches ExprV::Pair(h, _) && *h is Sym && *h == tag
}

/// Whether `e` is a form headed by the symbol with the given name.
pub open spec fn is_form(e: ExprV, name: Seq<char>) -> bool {
    is_tagged_v(e, ExprV::Sym(name))
}

impl Expr {
    /// True when the receiver is a pair whose first component is a
    /// symbol equal to `tag`.
    pub fn is_tagged(&self, tag: Expr) -> (r: bool)
        ensures
            r == is_tagged_v(self@, tag@),
    {
        match self {
            Expr::Pair(h, _) => h.is_sym() && expr_eq(&**h, &tag),
            _ => false,
        }
    }

    /// Recognizes a `quote` form.
    pub fn is_quote(&self) -> (r: bool)
        ensures
            r == is_form(self@, "quote"@),
    {
        self.is_tagged(Expr::new_sym("quote"))
    }

    /// Recognizes a `define` form.
    pub fn is_def(&self) -> (r: bool)
        ensures
            r == is_form(self@, "define"@),
    {
        self.is_tagged(Expr::new_sym("define"))
    }

    /// Recognizes an `and` form.
    pub fn is_and(&self) -> (r: bool)
        ensures
            r == is_form(self@, "and"@),
    {
        self.is_tagged(Expr::new_sym("and"))
    }

    /// Recognizes an `or` form.
    pub fn is_or(&self) -> (r: bool)
        ensures
            r == is_form(self@, "or"@),
    {
        self.is_tagged(Expr::new_sym("or"))
    }

    /// Recognizes an `if` form.
    pub fn is_if(&self) -> (r: bool)
        ensures
            r == is_form(self@, "if"@),
    {
        self.is_tagged(Expr::new_sym("if"))
    }

    /// Recognizes a `set!` form.
    pub fn is_assign(&self) -> (r: bool)
        ensures
            r == is_form(self@, "set!"@),
    {
        self.is_tagged(Expr::new_sym("set!"))
    }

    /// Recognizes a `lambda` form.
    pub fn is_lambda(&self) -> (r: bool)
        ensures
            r == is_form(self@, "lambda"@),
    {
        self.is_tagged(Expr::new_sym("lambda"))
    }

    /// Recognizes a `cond` form.
    pub fn is_cond(&self) -> (r: bool)
        ensures
            r == is_form(self@, "cond"@),
    {
        self.is_tagged(Expr::new_sym("cond"))
    }

    /// Recognizes a `let` form.
    pub fn is_let(&self) -> (r: bool)
        ensures
            r == is_form(self@, "let"@),
    {
        self.is_tagged(Expr::new_sym("let"))
    }

    /// Recognizes a `begin` form.
    pub fn is_begin(&self) -> (r: bool)
        ensures
            r == is_form(self@, "begin"@),
    {
        self.is_tagged(Expr::new_sym("begin"))
    }
}

/// One step of a path access: `'a'` takes the car, anything else the
/// cdr.
pub open spec fn nav1_v(e: ExprV, ch: char) -> ExprV
    recommends
        e is Pair,
{
    if ch == 'a' {
        car_v(e)
    } else {
        cdr_v(e)
    }
}

/// Whether every step of the path lands on a pair, so that the whole
/// access is defined.
pub open spec fn path_valid(e: ExprV, path: Seq<char>) -> bool
    decreases path.len(),
{
    path.len() == 0 || (e is Pair && path_valid(nav1_v(e, path[0]), path.skip(1)))
}

/// The expression reached by applying the path left to right.
pub open spec fn nav_v(e: ExprV, path: Seq<char>) -> ExprV
    decreases path.len(),
{
    if path.len() == 0 {
        e
    } else {
        nav_v(nav1_v(e, path[0]), path.skip(1))
    }
}

/// The expression `(lambda params . body)`: a lambda form over the
/// given formal-parameter list and body list.
pub open spec fn make_lambda_v(params: ExprV, body: ExprV) -> ExprV {
    ExprV::Pair(
        Box::new(ExprV::Sym("lambda"@)),
        Box::new(ExprV::Pair(Box::new(params), Box::new(body))),
    )
}

/// The formal-parameter list of a closure.
pub open spec fn cp_params_v(e: ExprV) -> ExprV
    recommends
        e is CompProc,
{
    match e {
        ExprV::CompProc(p, _, _) => *p,
        _ => ExprV::Nil,
    }
}

/// The body list of a closure.
pub open spec fn cp_body_v(e: ExprV) -> ExprV
    recommends
        e is CompProc,
{
    match e {
        ExprV::CompProc(_, b, _) => *b,
        _ => ExprV::Nil,
    }
}

/// The captured-environment frame handle of a closure.
pub open spec fn cp_env_v(e: ExprV) -> nat
    recommends
        e is CompProc,
{
    match e {
        ExprV::CompProc(_, _, h) => h,
        _ => 0,
    }
}

/// Shape of a well-formed `define` form: either `(define var val ...)`
/// with `var` a symbol, or `(define (fn params...) body...)`.
pub open spec fn def_form_ok_v(e: ExprV) -> bool {
    &&& is_form(e, "define"@)
    &&& cdr_v(e) is Pair
    &&& if car_v(cdr_v(e)) is Sym {
        cdr_v(cdr_v(e)) is Pair
    } else {
        car_v(cdr_v(e)) is Pair
    }
}

/// The name being defined by a `define` form.
pub open spec fn def_var_v(e: ExprV) -> ExprV
    recommends
        def_form_ok_v(e),
{
    if car_v(cdr_v(e)) is Sym {
        car_v(cdr_v(e))
    } else {
        car_v(car_v(cdr_v(e)))
    }
}

/// The expression whose value the `define` form binds: the given value
/// for the variable form, a lambda over the parameters and body for
/// the procedure form.
pub open spec fn def_val_v(e: ExprV) -> ExprV
    recommends
        def_form_ok_v(e),
{
    if car_v(cdr_v(e)) is Sym {
        car_v(cdr_v(cdr_v(e)))
    } else {
        make_lambda_v(cdr_v(car_v(cdr_v(e))), cdr_v(cdr_v(e)))
    }
}

impl Expr {
    /// The path accessor: applies `car` for each `'a'` and `cdr` for
    /// each other character of `s`, left to right.
    pub fn c(&self, s: &str) -> (r: Expr)
        requires
            path_valid(self@, s@),
        ensures
            r@ == nav_v(self@, s@),
    {
        let n = s.unicode_len();
        let mut r = self.clone();
        let mut i: usize = 0;
        proof {
            assert(s@.skip(0) =~= s@);
        }
        while i < n
            invariant
                i <= n,
                n == s@.len(),
                path_valid(r@, s@.skip(i as int)),
                nav_v(r@, s@.skip(i as int)) == nav_v(self@, s@),
            decreases n - i,
        {
            let ch = s.get_char(i);
            proof {
                assert(s@.skip(i as int)[0] == s@[i as int]);
                assert(s@.skip(i as int).skip(1) =~= s@.skip(i + 1));
            }
            if ch == 'a' {
                r = r.car();
            } else {
                r = r.cdr();
            }
            i = i + 1;
        }
        proof {
            assert(s@.skip(n as int) =~= Seq::<char>::empty());
        }
        r
    }

    /// Builds `(lambda self . body)`: the receiver is the
    /// formal-parameter list.
    pub fn make_lambda(&self, body: Expr) -> (r: Expr)
        ensures
            r@ == make_lambda_v(self@, body@),
    {
        let lambda = Expr::new_sym("lambda");
        Expr::new_pair(lambda, Expr::new_pair(self.clone(), body))
    }

    /// The formal-parameter list of a closure.
    pub fn params(&self) -> (r: Expr)
        requires
            self@ is CompProc,
        ensures
            r@ == cp_params_v(self@),
    {
        match self {
            Expr::CompProc(p, _, _) => (**p).clone(),
            _ => Expr::Nil,
        }
    }

    /// The body list of a closure.
    pub fn body(&self) -> (r: Expr)
        requires
            self@ is CompProc,
        ensures
            r@ == cp_body_v(self@),
    {
        match self {
            Expr::CompProc(_, b, _) => (**b).clone(),
            _ => Expr::Nil,
        }
    }

    /// The captured-environment frame handle of a closure.
    pub fn env_handle(&self) -> (r: usize)
        requires
            self@ is CompProc,
        ensures
            r as nat == cp_env_v(self@),
    {
        match self {
            Expr::CompProc(_, _, h) => *h,
            _ => 0,
        }
    }

    /// The name being defined by a `define` form.
    pub fn def_var(&self) -> (r: Expr)
        requires
            def_form_ok_v(self@),
        ensures
            r@ == def_var_v(self@),
    {
        if self.cdr_ref().car_ref().is_sym() {
            self.cdr_ref().car()
        } else {
            self.cdr_ref().car_ref().car()
        }
    }

    /// The expression whose value the `define` form binds.
    pub fn def_val(&self) -> (r: Expr)
        requires
            def_form_ok_v(self@),
        ensures
            r@ == def_val_v(self@),
    {
        if self.cdr_ref().car_ref().is_sym() {
            self.cdr_ref().cdr_ref().car()
        } else {
            self.cdr_ref().car_ref().cdr().make_lambda(self.cdr_ref().cdr())
        }
    }
}

/// The sequence of element expressions that flattening a pair chain
/// yields, for display: self-evaluating elements and other atoms in
/// order, nested chains flattened, empty lists skipped; an improper
/// tail ends the walk.
pub open spec fn collect_v(e: ExprV) -> Seq<ExprV>
    decreases e, 0nat,
{
    match e {
        ExprV::Pair(f, d) => collect_elem_v(*f) + if *d is Pair {
            collect_v(*d)
        } else {
            Seq::empty()
        },
        _ => Seq::empty(),
    }
}

/// The items contributed by one element of a chain being flattened.
pub open spec fn collect_elem_v(f: ExprV) -> Seq<ExprV>
    decreases f, 1nat,
{
    if is_self_v(f) {
        seq![f]
    } else if f is Nil {
        Seq::empty()
    } else if f is Pair {
        collect_v(f)
    } else {
        seq![f]
    }
}

/// The element views of a sequence of expressions.
pub open spec fn views_of(s: Seq<Expr>) -> Seq<ExprV> {
    s.map(|i: int, e: Expr| expr_view(e))
}

proof fn lemma_views_of_add(a: Seq<Expr>, b: Seq<Expr>)
    ensures
        views_of(a + b) == views_of(a) + views_of(b),
{
    assert(views_of(a + b) =~= views_of(a) + views_of(b));
}

impl Expr {
    /// Flattens a pair chain into the sequence of its element
    /// expressions, for display purposes only.
    pub fn collect(&self) -> (r: Vec<Expr>)
        requires
            self@ is Pair,
        ensures
            views_of(r@) == collect_v(self@),
        decreases self, 0nat,
    {
        match self {
            Expr::Pair(f0, d0) => {
                let f = &**f0;
                let d = &**d0;
                let mut res = collect_elem(f);
                if !d.is_empty() && d.is_pair() {
                    let mut rest = d.collect();
                    proof {
                        lemma_views_of_add(res@, rest@);
                    }
                    let ghost old_res = res@;
                    let ghost old_rest = rest@;
                    res.append(&mut rest);
                    proof {
                        assert(res@ == old_res + old_rest);
                    }
                } else {
                    proof {
                        assert(views_of(res@) =~= views_of(res@) + Seq::<ExprV>::empty());
                    }
                }
                res
            },
            _ => Vec::new(),
        }
    }
}

/// The items contributed by one element of a chain being flattened.
fn collect_elem(f: &Expr) -> (r: Vec<Expr>)
    ensures
        views_of(r@) == collect_elem_v(f@),
    decreases f, 1nat,
{
    if f.is_self() {
        let r = vec![f.clone()];
        proof {
            assert(views_of(r@) =~= seq![f@]);
        }
        r
    } else if f.is_empty() {
        let r: Vec<Expr> = Vec::new();
        proof {
            assert(views_of(r@) =~= Seq::<ExprV>::empty());
        }
        r
    } else if !f.is_empty() && f.is_pair() {
        f.collect()
    } else {
        let r = vec![f.clone()];
        proof {
            assert(views_of(r@) =~= seq![f@]);
        }
        r
    }
}

} // verus!
