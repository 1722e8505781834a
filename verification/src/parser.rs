use crate::ast::{Expr, ExprV, expr_closed};
use vstd::prelude::*;

verus! {

/// The reader: turns source text into expression trees.  The text is
/// held twice: as the characters the cursor moves over, and raw, so
/// that an atom's text can be sliced out of it; `line` counts the
/// newlines read so far, for diagnostics only.
pub struct Parser {
    pub code: Vec<char>,
    pub text: String,
    pub cur: usize,
    pub line: usize,
    pub col: usize,
}

/// The parser's invariant: the cursor stays within the text, and the
/// two holdings of the text agree.
pub open spec fn parser_wf(p: Parser) -> bool {
    p.cur <= p.code@.len() && p.text@ == p.code@
}

/// The character under the cursor, or the null character at the end.
pub open spec fn peek_v(p: Parser) -> char {
    if p.cur < p.code@.len() {
        p.code@[p.cur as int]
    } else {
        '\0'
    }
}

/// ASCII whitespace.
pub open spec fn is_ws_v(c: char) -> bool {
    c == ' ' || c == '\t' || c == '\n' || c == '\r'
}

/// ASCII decimal digit.
pub open spec fn is_digit_v(c: char) -> bool {
    '0' <= c && c <= '9'
}

/// A character that may begin or continue a symbol: an ASCII letter
/// or one of the operator characters.
pub open spec fn is_initial_v(c: char) -> bool {
    ('a' <= c && c <= 'z') || ('A' <= c && c <= 'Z') || c == '*' || c == '/' || c == '+' || c
        == '-' || c == '>' || c == '<' || c == '=' || c == '?' || c == '!'
}

/// A character that ends an atom: whitespace or one of the structural
/// characters.
pub open spec fn is_delim_v(c: char) -> bool {
    is_ws_v(c) || c == '"' || c == '(' || c == ')' || c == ';'
}

impl Parser {
    /// A parser over empty text.
    pub fn new_from() -> (r: Parser)
        ensures
            r.code@.len() == 0,
            r.cur == 0,
            r.line == 0,
            r.col == 0,
            parser_wf(r),
    {
        Parser { code: Vec::new(), text: String::new(), cur: 0, line: 0, col: 0 }
    }

    /// Replaces the text with `code` and rewinds the cursor.
    pub fn load(&mut self, code: String)
        ensures
            final(self).code@ == code@,
            final(self).cur == 0,
            final(self).line == 1,
            final(self).col == 0,
            parser_wf(*final(self)),
    {
        let s: &str = code.as_str();
        let n = s.unicode_len();
        let mut v: Vec<char> = Vec::new();
        let mut i: usize = 0;
        while i < n
            invariant
                i <= n,
                n == s@.len(),
                v@ == s@.take(i as int),
            decreases n - i,
        {
            v.push(s.get_char(i));
            proof {
                assert(v@ =~= s@.take(i + 1));
            }
            i = i + 1;
        }
        proof {
            assert(s@.take(n as int) =~= s@);
        }
        self.code = v;
        self.text = code;
        self.line = 1;
        self.cur = 0;
        self.col = 0;
    }

    /// Whether the cursor has reached the end of the text.
    fn eof(&self) -> (r: bool)
        ensures
            r == (self.cur >= self.code@.len()),
    {
        self.cur >= self.code.len()
    }

    /// The character under the cursor without consuming it; the null
    /// character at the end.
    fn peekc(&self) -> (r: char)
        ensures
            r == peek_v(*self),
    {
        if self.cur < self.code.len() {
            self.code[self.cur]
        } else {
            '\0'
        }
    }

    /// The character just before the cursor.
    fn prevc(&self) -> (r: char)
        requires
            0 < self.cur <= self.code@.len(),
        ensures
            r == self.code@[self.cur - 1],
    {
        self.code[self.cur - 1]
    }

    /// Consumes and returns the character under the cursor, counting
    /// newlines; at the end it returns the null character and stays.
    fn readc(&mut self) -> (r: char)
        requires
            parser_wf(*old(self)),
        ensures
            final(self).code == old(self).code,
            final(self).text == old(self).text,
            final(self).col == old(self).col,
            parser_wf(*final(self)),
            old(self).cur < old(self).code@.len() ==> r == old(self).code@[old(self).cur as int]
                && final(self).cur == old(self).cur + 1,
            old(self).cur >= old(self).code@.len() ==> r == '\0' && final(self).cur == old(
                self,
            ).cur,
    {
        if self.cur < self.code.len() {
            let res = self.code[self.cur];
            if res == '\n' {
                self.line = self.line.saturating_add(1);
            }
            self.cur = self.cur + 1;
            res
        } else {
            '\0'
        }
    }

    /// Moves the cursor back one character.
    fn unread(&mut self)
        requires
            parser_wf(*old(self)),
            old(self).cur > 0,
        ensures
            final(self).code == old(self).code,
            final(self).text == old(self).text,
            final(self).col == old(self).col,
            final(self).cur == old(self).cur - 1,
            parser_wf(*final(self)),
    {
        if self.prevc() == '\n' {
            self.line = self.line.saturating_sub(1);
        }
        self.cur = self.cur - 1;
    }

    /// Whether `ch` ends an atom.
    fn is_delimiter(&self, ch: char) -> (r: bool)
        ensures
            r == is_delim_v(ch),
    {
        is_ws(ch) || ch == '"' || ch == '(' || ch == ')' || ch == ';'
    }

    /// Whether `ch` may begin or continue a symbol.
    fn is_initial(&self, ch: char) -> (r: bool)
        ensures
            r == is_initial_v(ch),
    {
        (ch >= 'a' && ch <= 'z') || (ch >= 'A' && ch <= 'Z') || ch == '*' || ch == '/' || ch == '+'
            || ch == '-' || ch == '>' || ch == '<' || ch == '=' || ch == '?' || ch == '!'
    }

    /// Consumes whitespace up to the next visible character.
    fn skip_space(&mut self)
        requires
            parser_wf(*old(self)),
        ensures
            final(self).code == old(self).code,
            final(self).text == old(self).text,
            final(self).col == old(self).col,
            old(self).cur <= final(self).cur,
            parser_wf(*final(self)),
            !is_ws_v(peek_v(*final(self))),
    {
        while is_ws(self.peekc())
            invariant
                parser_wf(*self),
                self.code == old(self).code,
                self.text == old(self).text,
                self.col == old(self).col,
                old(self).cur <= self.cur,
            decreases self.code@.len() - self.cur,
        {
            proof {
                assert(self.cur < self.code@.len());
            }
            self.readc();
        }
    }
}

/// Whether `c` is ASCII whitespace.
fn is_ws(c: char) -> (r: bool)
    ensures
        r == is_ws_v(c),
{
    c == ' ' || c == '\t' || c == '\n' || c == '\r'
}

/// The text with its leading whitespace removed.
pub open spec fn trim_front_v(s: Seq<char>) -> Seq<char>
    decreases s.len(),
{
    if s.len() > 0 && is_ws_v(s[0]) {
        trim_front_v(s.skip(1))
    } else {
        s
    }
}

/// The text with its trailing whitespace removed.
pub open spec fn trim_back_v(s: Seq<char>) -> Seq<char>
    decreases s.len(),
{
    if s.len() > 0 && is_ws_v(s.last()) {
        trim_back_v(s.drop_last())
    } else {
        s
    }
}

/// The text with whitespace removed from both ends.
pub open spec fn trim_v(s: Seq<char>) -> Seq<char> {
    trim_back_v(trim_front_v(s))
}

proof fn lemma_trim_front(s: Seq<char>, a: int)
    requires
        0 <= a <= s.len(),
        forall|i: int| 0 <= i < a ==> is_ws_v(s[i]),
        a == s.len() || !is_ws_v(s[a]),
    ensures
        trim_front_v(s) == s.skip(a),
    decreases a,
{
    if a == 0 {
        assert(s.skip(0) =~= s);
    } else {
        lemma_trim_front(s.skip(1), a - 1);
        assert(s.skip(1).skip(a - 1) =~= s.skip(a));
    }
}

proof fn lemma_trim_back(s: Seq<char>, b: int)
    requires
        0 <= b <= s.len(),
        forall|i: int| b <= i < s.len() ==> is_ws_v(s[i]),
        b == 0 || !is_ws_v(s[b - 1]),
    ensures
        trim_back_v(s) == s.take(b),
    decreases s.len(),
{
    if b == s.len() {
        assert(s.take(b) =~= s);
    } else {
        lemma_trim_back(s.drop_last(), b);
        assert(s.drop_last().take(b) =~= s.take(b));
    }
}

/// A copy of `s` with whitespace removed from both ends.
fn trimmed(t: &str) -> (r: String)
    ensures
        r@ == trim_v(t@),
{
    let n = t.unicode_len();
    let mut a: usize = 0;
    while a < n && is_ws(t.get_char(a))
        invariant
            a <= n,
            n == t@.len(),
            forall|i: int| 0 <= i < a ==> is_ws_v(t@[i]),
        decreases n - a,
    {
        a = a + 1;
    }
    let mut b: usize = n;
    while b > a && is_ws(t.get_char(b - 1))
        invariant
            a <= b <= n,
            n == t@.len(),
            forall|i: int| b <= i < n ==> is_ws_v(t@[i]),
        decreases b,
    {
        b = b - 1;
    }
    proof {
        lemma_trim_front(t@, a as int);
        assert(b == a || !is_ws_v(t@[b - 1]));
        assert forall|i: int| b - a <= i < t@.skip(a as int).len() implies is_ws_v(
            #[trigger] t@.skip(a as int)[i],
        ) by {
            assert(t@.skip(a as int)[i] == t@[i + a]);
        }
        lemma_trim_back(t@.skip(a as int), b - a);
    }
    let sub = t.substring_char(a, b);
    proof {
        assert(sub@ =~= t@.skip(a as int).take(b - a));
    }
    String::from_str(sub)
}

/// Whether `c` is an ASCII decimal digit.
fn is_digit(c: char) -> (r: bool)
    ensures
        r == is_digit_v(c),
{
    c >= '0' && c <= '9'
}

impl Parser {
    /// Reads the next expression from the text: an atom, a quoted
    /// expression, or a parenthesized chain; `None` at the end of the
    /// input or when no expression can be formed.  Whatever is read is
    /// free of closures, and reading an expression always consumes at
    /// least one character.
    pub fn read_exp(&mut self) -> (r: Option<Expr>)
        requires
            parser_wf(*old(self)),
        ensures
            parser_wf(*final(self)),
            final(self).code == old(self).code,
            old(self).cur <= final(self).cur,
            r matches Some(e) ==> expr_closed(e@) && final(self).cur > old(self).cur,
        decreases old(self).code@.len() - old(self).cur, 0nat,
    {
        if self.eof() {
            return None;
        }
        self.skip_space();
        let cur0 = self.readc();
        if cur0 == '#' {
            let next = self.readc();
            proof {
                assert(expr_closed(ExprV::Bool(true)));
                assert(expr_closed(ExprV::Bool(false)));
                assert(expr_closed(ExprV::Char('a')));
                assert(self.cur > old(self).cur);
            }
            if next == 't' {
                Some(Expr::Bool(true))
            } else if next == 'f' {
                Some(Expr::Bool(false))
            } else if next == '\\' {
                self.read_char()
            } else {
                None
            }
        } else if is_digit(cur0) || (cur0 == '-' && is_digit(self.peekc())) {
            let neg = cur0 == '-';
            if !neg {
                self.unread();
            }
            let ghost start = self.cur;
            let mut num: isize = 0;
            while is_digit(self.peekc())
                invariant
                    parser_wf(*self),
                    self.code == old(self).code,
                    num >= 0,
                    old(self).cur <= self.cur,
                    start <= self.cur,
                    self.cur == start ==> is_digit_v(peek_v(*self)),
                decreases self.code@.len() - self.cur,
            {
                proof {
                    assert(self.cur < self.code@.len());
                }
                let c = self.readc();
                let dv = (c as u32) - 48;
                let next_num = match num.checked_mul(10) {
                    Some(m) => match m.checked_add(dv as isize) {
                        Some(s) => s,
                        None => {
                            return None;
                        },
                    },
                    None => {
                        return None;
                    },
                };
                num = next_num;
            }
            let t = self.peekc();
            if t != '\0' && !self.is_delimiter(t) {
                self.readc();
            }
            let val = if neg {
                -num
            } else {
                num
            };
            proof {
                assert(expr_closed(ExprV::Int(val as int)));
                assert(self.cur > old(self).cur);
            }
            Some(Expr::Int(val))
        } else if cur0 == '"' {
            let start = self.cur;
            while self.peekc() != '"'
                invariant
                    parser_wf(*self),
                    self.code == old(self).code,
                    self.text == old(self).text,
                    old(self).cur < self.cur,
                    start <= self.cur,
                decreases self.code@.len() - self.cur,
            {
                if self.eof() {
                    return None;
                }
                proof {
                    assert(self.cur < self.code@.len());
                }
                self.readc();
            }
            let end = self.cur;
            self.readc();
            let raw = self.text.as_str().substring_char(start, end);
            let t = trimmed(raw);
            let r = Expr::new_str(t.as_str());
            proof {
                assert(expr_closed(r@));
                assert(self.cur > old(self).cur);
            }
            Some(r)
        } else if cur0 == '(' {
            self.read_pair()
        } else if self.is_initial(cur0) {
            let start = self.cur - 1;
            while is_digit(self.peekc()) || self.is_initial(self.peekc())
                invariant
                    parser_wf(*self),
                    self.code == old(self).code,
                    self.text == old(self).text,
                    old(self).cur < self.cur,
                    start < self.cur,
                decreases self.code@.len() - self.cur,
            {
                proof {
                    assert(self.cur < self.code@.len());
                }
                self.readc();
            }
            let end = self.cur;
            let raw = self.text.as_str().substring_char(start, end);
            let tr = trimmed(raw);
            let r = Expr::new_sym(tr.as_str());
            let t = self.peekc();
            if t != '\0' && !self.is_delimiter(t) {
                self.readc();
            }
            proof {
                assert(expr_closed(r@));
                assert(self.cur > old(self).cur);
            }
            Some(r)
        } else if cur0 == '\'' {
            let quote_sym = Expr::new_sym("quote");
            match self.read_exp() {
                Some(q) => {
                    let quoted = Expr::new_pair(q, Expr::Nil);
                    let r = Expr::new_pair(quote_sym, quoted);
                    proof {
                        assert(expr_closed(ExprV::Nil));
                        assert(expr_closed(ExprV::Sym("quote"@)));
                        assert(expr_closed(quoted@));
                        assert(expr_closed(r@));
                    }
                    Some(r)
                },
                None => None,
            }
        } else {
            None
        }
    }

    /// Reads the rest of a parenthesized chain after its opening
    /// parenthesis: the empty list at a closing parenthesis, otherwise
    /// an element followed by the rest; a dot ends the chain as the
    /// empty list.
    fn read_pair(&mut self) -> (r: Option<Expr>)
        requires
            parser_wf(*old(self)),
        ensures
            parser_wf(*final(self)),
            final(self).code == old(self).code,
            old(self).cur <= final(self).cur,
            r matches Some(e) ==> expr_closed(e@) && final(self).cur > old(self).cur,
        decreases old(self).code@.len() - old(self).cur, 1nat,
    {
        self.skip_space();
        if self.eof() {
            return None;
        }
        let c = self.peekc();
        if c == ')' {
            self.readc();
            return Some(Expr::Nil);
        }
        let car_obj = match self.read_exp() {
            Some(e) => e,
            None => {
                return None;
            },
        };
        self.skip_space();
        if self.eof() {
            return None;
        }
        let c2 = self.peekc();
        if c2 != '.' {
            match self.read_pair() {
                Some(d) => {
                    let r = Expr::new_pair(car_obj, d);
                    proof {
                        assert(expr_closed(r@));
                    }
                    Some(r)
                },
                None => None,
            }
        } else {
            self.readc();
            Some(Expr::Nil)
        }
    }

    /// Reads a character literal; the reference reader recognizes only
    /// the placeholder character.
    fn read_char(&mut self) -> (r: Option<Expr>)
        ensures
            *final(self) == *old(self),
            r matches Some(e) ==> e@ == ExprV::Char('a'),
    {
        Some(Expr::Char('a'))
    }
}

} // verus!
