use crate::error::Result;
use crate::memory::Layout;
use smallvec::SmallVec;
use vstd::prelude::*;
use vstd::string::StringExecFns;

pub mod sh2e;

verus! {

/// The token storage of an instruction: smallvec's vector, which keeps up to
/// six tokens inline.
#[verifier::external_body]
pub struct TokenVec {
    inner: SmallVec<[Token; 6]>,
}

/// The tokens that a token vector holds, in order.
pub uninterp spec fn token_seq(v: TokenVec) -> Seq<Token>;

/// Relies on smallvec's `SmallVec::new`: a new vector holds nothing.
#[verifier::external_body]
fn tokens_new() -> (r: TokenVec)
    ensures
        token_seq(r) == Seq::<Token>::empty(),
{
    TokenVec { inner: SmallVec::new() }
}

/// Relies on smallvec's `SmallVec::push`: the item is appended at the end.
#[verifier::external_body]
fn tokens_push(v: &mut TokenVec, t: Token)
    ensures
        token_seq(*final(v)) == token_seq(*old(v)).push(t),
{
    v.inner.push(t)
}

/// Relies on smallvec's `SmallVec::as_slice`: the items, in order.
#[verifier::external_body]
fn tokens_slice(v: &TokenVec) -> (r: &[Token])
    ensures
        r@ == token_seq(*v),
{
    v.inner.as_slice()
}

/// Information that is obtained by disassembling code.
pub struct Disassembly {}

/// What a token holds, as a mathematical value.
pub enum BaseView {
    Opcode(Seq<char>),
    Immediate(nat),
    Register(Seq<char>),
}

/// A token as a mathematical value.
pub struct TokenView {
    pub prefix: Seq<char>,
    pub suffix: Seq<char>,
    pub base: BaseView,
}

#[derive(Debug, Clone, Copy, PartialEq, Eq)]
pub enum TokenBase {
    Opcode(&'static str),
    Immediate(usize),
    Register(&'static str),
}

impl View for TokenBase {
    type V = BaseView;

    open spec fn view(&self) -> BaseView {
        match *self {
            TokenBase::Opcode(s) => BaseView::Opcode(s@),
            TokenBase::Immediate(n) => BaseView::Immediate(n as nat),
            TokenBase::Register(s) => BaseView::Register(s@),
        }
    }
}

/// One lexical unit of an instruction's text, with decorations around it.
#[derive(Debug, Clone, Copy, PartialEq, Eq)]
pub struct Token {
    prefix: &'static str,
    suffix: &'static str,
    base: TokenBase,
}

impl View for Token {
    type V = TokenView;

    closed spec fn view(&self) -> TokenView {
        TokenView { prefix: self.prefix@, suffix: self.suffix@, base: self.base@ }
    }
}

impl Token {
    pub fn new(base: TokenBase) -> (r: Token)
        ensures
            r@ == (TokenView { prefix: Seq::empty(), suffix: Seq::empty(), base: base@ }),
    {
        proof {
            reveal_strlit("");
            assert(""@ =~= Seq::<char>::empty());
        }
        Token { prefix: "", suffix: "", base }
    }

    pub fn with_prefix(self, prefix: &'static str) -> (r: Token)
        ensures
            r@ == (TokenView { prefix: prefix@, ..self@ }),
    {
        Token { prefix, ..self }
    }

    pub fn with_suffix(self, suffix: &'static str) -> (r: Token)
        ensures
            r@ == (TokenView { suffix: suffix@, ..self@ }),
    {
        Token { suffix, ..self }
    }

    pub fn prefix(&self) -> (r: &'static str)
        ensures
            r@ == self@.prefix,
    {
        self.prefix
    }

    pub fn suffix(&self) -> (r: &'static str)
        ensures
            r@ == self@.suffix,
    {
        self.suffix
    }

    pub fn base(&self) -> (r: TokenBase)
        ensures
            r@ == self@.base,
    {
        self.base
    }
}


/// A decoded instruction: an opcode token followed by its operand tokens.
pub struct Instruction {
    tokens: TokenVec,
}

impl View for Instruction {
    type V = Seq<TokenView>;

    closed spec fn view(&self) -> Seq<TokenView> {
        token_seq(self.tokens).map_values(|t: Token| t@)
    }
}

/// The character of a decimal digit.
pub open spec fn digit_char(d: nat) -> char {
    if d == 0 {
        '0'
    } else if d == 1 {
        '1'
    } else if d == 2 {
        '2'
    } else if d == 3 {
        '3'
    } else if d == 4 {
        '4'
    } else if d == 5 {
        '5'
    } else if d == 6 {
        '6'
    } else if d == 7 {
        '7'
    } else if d == 8 {
        '8'
    } else {
        '9'
    }
}

/// The decimal text of a number, without leading zeros.
pub open spec fn decimal(n: nat) -> Seq<char>
    decreases n,
{
    if n < 10 {
        seq![digit_char(n)]
    } else {
        decimal(n / 10) + seq![digit_char(n % 10)]
    }
}

/// The text of what a token holds: immediates in decimal, names as they are.
pub open spec fn base_text(b: BaseView) -> Seq<char> {
    match b {
        BaseView::Opcode(s) => s,
        BaseView::Immediate(n) => decimal(n),
        BaseView::Register(s) => s,
    }
}

/// The text of a token: its prefix, what it holds, then its suffix.
pub open spec fn token_text(t: TokenView) -> Seq<char> {
    t.prefix + base_text(t.base) + t.suffix
}

/// What stands before the token at position `i`: nothing before the opcode,
/// a space before the first operand, a comma and a space before the others.
pub open spec fn separator(i: int) -> Seq<char> {
    if i == 0 {
        seq![]
    } else if i == 1 {
        seq![' ']
    } else {
        seq![',', ' ']
    }
}

/// The canonical text of a sequence of tokens.
pub open spec fn render(ts: Seq<TokenView>) -> Seq<char>
    decreases ts.len(),
{
    if ts.len() == 0 {
        seq![]
    } else {
        render(ts.drop_last()) + separator(ts.len() - 1) + token_text(ts.last())
    }
}

fn digit_str(d: usize) -> (r: &'static str)
    requires
        d < 10,
    ensures
        r@ == seq![digit_char(d as nat)],
{
    if d == 0 {
        proof { reveal_strlit("0"); }
        "0"
    } else if d == 1 {
        proof { reveal_strlit("1"); }
        "1"
    } else if d == 2 {
        proof { reveal_strlit("2"); }
        "2"
    } else if d == 3 {
        proof { reveal_strlit("3"); }
        "3"
    } else if d == 4 {
        proof { reveal_strlit("4"); }
        "4"
    } else if d == 5 {
        proof { reveal_strlit("5"); }
        "5"
    } else if d == 6 {
        proof { reveal_strlit("6"); }
        "6"
    } else if d == 7 {
        proof { reveal_strlit("7"); }
        "7"
    } else if d == 8 {
        proof { reveal_strlit("8"); }
        "8"
    } else {
        proof { reveal_strlit("9"); }
        "9"
    }
}

/// Appends the decimal text of `n`.
fn push_decimal(out: &mut String, n: usize)
    ensures
        final(out)@ == old(out)@ + decimal(n as nat),
    decreases n,
{
    if n >= 10 {
        push_decimal(out, n / 10);
    }
    out.append(digit_str(n % 10));
    assert(out@ =~= old(out)@ + decimal(n as nat));
}

impl Token {
    /// Appends the text of the token.
    fn push_text(&self, out: &mut String)
        ensures
            final(out)@ == old(out)@ + token_text(self@),
    {
        out.append(self.prefix);
        match self.base {
            TokenBase::Opcode(op) => out.append(op),
            TokenBase::Immediate(num) => push_decimal(out, num),
            TokenBase::Register(reg) => out.append(reg),
        }
        out.append(self.suffix);
        assert(out@ =~= old(out)@ + token_text(self@));
    }
}

impl Instruction {
    /// An instruction without tokens.
    pub(crate) fn empty() -> (r: Instruction)
        ensures
            r@ == Seq::<TokenView>::empty(),
    {
        let r = Instruction { tokens: tokens_new() };
        assert(r@ =~= Seq::<TokenView>::empty());
        r
    }

    /// Appends a token.
    pub(crate) fn push(&mut self, t: Token)
        ensures
            final(self)@ == old(self)@.push(t@),
            final(self)@ == old(self)@ + seq![t@],
    {
        tokens_push(&mut self.tokens, t);
        assert(self@ =~= old(self)@.push(t@));
        assert(self@ =~= old(self)@ + seq![t@]);
    }

    /// The tokens, in order.
    pub fn tokens(&self) -> (r: &[Token])
        ensures
            r@.map_values(|t: Token| t@) == self@,
    {
        tokens_slice(&self.tokens)
    }

    /// The canonical text of the instruction.
    pub fn to_string(&self) -> (r: String)
        ensures
            r@ == render(self@),
    {
        let ts = tokens_slice(&self.tokens);
        let ghost v = self@;
        let mut out = String::new();
        let mut i: usize = 0;
        while i < ts.len()
            invariant
                i <= ts@.len(),
                v == ts@.map_values(|t: Token| t@),
                out@ == render(v.take(i as int)),
            decreases ts@.len() - i,
        {
            if i == 1 {
                proof { reveal_strlit(" "); }
                out.append(" ");
            } else if i > 1 {
                proof { reveal_strlit(", "); }
                out.append(", ");
            }
            ts[i].push_text(&mut out);
            proof {
                let w = v.take(i + 1);
                assert(w.drop_last() =~= v.take(i as int));
                assert(w.last() == ts@[i as int]@);
                assert(separator(i as int) == seq![' '] ==> i == 1);
                if i == 0 {
                    assert(out@ =~= render(w));
                } else if i == 1 {
                    assert(" "@ =~= seq![' ']);
                    assert(out@ =~= render(w));
                } else {
                    assert(", "@ =~= seq![',', ' ']);
                    assert(out@ =~= render(w));
                }
            }
            i += 1;
        }
        assert(v.take(i as int) =~= v);
        out
    }
}

/// The result of a decode, as mathematical values.
pub open spec fn outcome(r: &Result<(Instruction, usize)>) -> core::result::Result<
    (Seq<TokenView>, usize),
    crate::error::Error,
> {
    match r {
        Ok((i, n)) => Ok((i@, *n)),
        Err(e) => Err(*e),
    }
}

/// An instruction set that can be decoded.
pub trait Architecture {
    /// What decoding at `address` gives: the tokens and the number of bytes
    /// that the instruction takes, or the error.
    spec fn decoding(&self, layout: &Layout, address: usize) -> core::result::Result<
        (Seq<TokenView>, usize),
        crate::error::Error,
    >;

    /// Disassembles a single instruction or returns an error.
    /// Returns the amount of bytes used.
    fn disassemble_single(&self, layout: &Layout, address: usize) -> (r: Result<
        (Instruction, usize),
    >)
        requires
            layout.wf(),
        ensures
            outcome(&r) == self.decoding(layout, address),
            r matches Ok((_, n)) ==> forall|a: int|
                address <= a < address + n ==> layout.contains(a),
    ;
}

} // verus!
