//! Correlation tokens that tie an interactive call to its completion signal.
use vstd::prelude::*;

verus! {

/// The character of a decimal digit.
pub open spec fn digit_char(d: nat) -> char {
    if d == 0 {
        '0'
    } else if d == 1 {
        '1'
    } else if d == 2 {
        '2'
    } else if d == 3 {
        '3'
    } else if d == 4 {
        '4'
    } else if d == 5 {
        '5'
    } else if d == 6 {
        '6'
    } else if d == 7 {
        '7'
    } else if d == 8 {
        '8'
    } else {
        '9'
    }
}

/// The value of a decimal digit character.
pub open spec fn digit_value(c: char) -> nat {
    if c == '0' {
        0
    } else if c == '1' {
        1
    } else if c == '2' {
        2
    } else if c == '3' {
        3
    } else if c == '4' {
        4
    } else if c == '5' {
        5
    } else if c == '6' {
        6
    } else if c == '7' {
        7
    } else if c == '8' {
        8
    } else {
        9
    }
}

/// The decimal digits of `n`, most significant first, without leading zeros.
pub open spec fn decimal(n: nat) -> Seq<char>
    decreases n,
{
    if n < 10 {
        seq![digit_char(n)]
    } else {
        decimal(n / 10).push(digit_char(n % 10))
    }
}

/// The number that a string of decimal digits denotes.
pub open spec fn decimal_value(s: Seq<char>) -> nat
    decreases s.len(),
{
    if s.len() == 0 {
        0
    } else {
        decimal_value(s.drop_last()) * 10 + digit_value(s.last())
    }
}

/// Reading back the digits of a number gives the number.
pub proof fn lemma_decimal_value(n: nat)
    ensures
        decimal_value(decimal(n)) == n,
    decreases n,
{
    let d = n % 10;
    assert(digit_value(digit_char(d)) == d);
    if n < 10 {
        assert(decimal(n).drop_last() =~= Seq::<char>::empty());
        assert(decimal(n).last() == digit_char(d));
        assert(decimal_value(Seq::<char>::empty()) == 0);
        assert(decimal_value(decimal(n)) == decimal_value(decimal(n).drop_last()) * 10 + digit_value(
            decimal(n).last(),
        ));
    } else {
        lemma_decimal_value(n / 10);
        assert(decimal(n).drop_last() =~= decimal(n / 10));
        assert(decimal(n).last() == digit_char(d));
        assert(n == (n / 10) * 10 + d);
        assert(decimal_value(decimal(n)) == decimal_value(decimal(n).drop_last()) * 10 + digit_value(
            decimal(n).last(),
        ));
    }
}

/// Distinct numbers have distinct decimal renderings.
pub proof fn lemma_decimal_injective(a: nat, b: nat)
    ensures
        decimal(a) == decimal(b) ==> a == b,
{
    lemma_decimal_value(a);
    lemma_decimal_value(b);
}

/// The text of one decimal digit.
fn digit_str(d: u64) -> (r: &'static str)
    requires
        d < 10,
    ensures
        r@ == seq![digit_char(d as nat)],
{
    proof {
        reveal_strlit("0");
        reveal_strlit("1");
        reveal_strlit("2");
        reveal_strlit("3");
        reveal_strlit("4");
        reveal_strlit("5");
        reveal_strlit("6");
        reveal_strlit("7");
        reveal_strlit("8");
        reveal_strlit("9");
    }
    let r = if d == 0 {
        "0"
    } else if d == 1 {
        "1"
    } else if d == 2 {
        "2"
    } else if d == 3 {
        "3"
    } else if d == 4 {
        "4"
    } else if d == 5 {
        "5"
    } else if d == 6 {
        "6"
    } else if d == 7 {
        "7"
    } else if d == 8 {
        "8"
    } else {
        "9"
    };
    assert(r@ =~= seq![digit_char(d as nat)]);
    r
}

/// The decimal digits of `n`.
fn decimal_string(n: u64) -> (r: String)
    ensures
        r@ == decimal(n as nat),
    decreases n,
{
    if n < 10 {
        digit_str(n).to_owned()
    } else {
        let mut s = decimal_string(n / 10);
        s.append(digit_str(n % 10));
        assert(s@ =~= decimal(n as nat));
        s
    }
}

/// An opaque string that names one outstanding interactive request.
#[derive(Debug, PartialEq, Eq)]
pub struct HandleToken {
    text: String,
}

impl View for HandleToken {
    type V = Seq<char>;

    closed spec fn view(&self) -> Seq<char> {
        self.text@
    }
}

impl HandleToken {
    /// Wraps a token string received from elsewhere, such as a decoded
    /// options record.
    pub fn from_string(text: String) -> (r: HandleToken)
        ensures
            r@ == text@,
    {
        HandleToken { text }
    }

    /// The token as text.
    pub fn as_str(&self) -> (r: &str)
        ensures
            r@ == self@,
    {
        self.text.as_str()
    }
}

/// The prefix and the decimal digits of `n`, side by side: the `n`-th token
/// of a generator made with `prefix`.
pub open spec fn token_text(prefix: Seq<char>, n: nat) -> Seq<char> {
    prefix + decimal(n)
}

/// Under one prefix, distinct counter values give distinct tokens.
pub proof fn lemma_token_text_injective(prefix: Seq<char>, a: nat, b: nat)
    ensures
        token_text(prefix, a) == token_text(prefix, b) ==> a == b,
{
    if token_text(prefix, a) == token_text(prefix, b) {
        let ta = token_text(prefix, a);
        let tb = token_text(prefix, b);
        assert(ta.subrange(prefix.len() as int, ta.len() as int) =~= decimal(a));
        assert(tb.subrange(prefix.len() as int, tb.len() as int) =~= decimal(b));
        lemma_decimal_injective(a, b);
    }
}

/// Hands out tokens that are unique for the generator's lifetime: a fixed
/// prefix followed by the decimal digits of a counter that only grows. A
/// prefix that is unique to the process, such as a nonce drawn at start-up,
/// makes the tokens unique across generators of the process too.
#[derive(Debug)]
pub struct TokenGenerator {
    prefix: String,
    next: u64,
}

impl TokenGenerator {
    /// The tokens issued so far.
    pub open spec fn issued(&self) -> Set<Seq<char>> {
        Set::new(|s: Seq<char>| exists|k: nat| k < self.count() && s == token_text(self.prefix(), k))
    }

    /// How many tokens have been issued.
    pub closed spec fn count(&self) -> nat {
        self.next as nat
    }

    /// The text that every token of this generator starts with.
    pub closed spec fn prefix(&self) -> Seq<char> {
        self.prefix@
    }

    /// A generator with no prefix that has issued nothing.
    pub fn new() -> (r: TokenGenerator)
        ensures
            r.issued() == Set::<Seq<char>>::empty(),
            r.count() == 0,
            r.prefix() == Seq::<char>::empty(),
    {
        TokenGenerator::with_prefix(String::new())
    }

    /// A generator whose tokens all start with `prefix`, that has issued nothing.
    pub fn with_prefix(prefix: String) -> (r: TokenGenerator)
        ensures
            r.issued() == Set::<Seq<char>>::empty(),
            r.count() == 0,
            r.prefix() == prefix@,
    {
        let r = TokenGenerator { prefix, next: 0 };
        assert(r.issued() =~= Set::<Seq<char>>::empty());
        r
    }

    /// Whether the counter has run out, so that no further token can be issued.
    pub fn exhausted(&self) -> (r: bool)
        ensures
            r == (self.count() >= u64::MAX),
    {
        self.next == u64::MAX
    }

    /// A token that differs from every token this generator issued before.
    pub fn new_token(&mut self) -> (r: HandleToken)
        requires
            old(self).count() < u64::MAX,
        ensures
            r@ == token_text(old(self).prefix(), old(self).count()),
            !old(self).issued().contains(r@),
            final(self).issued() == old(self).issued().insert(r@),
            final(self).count() == old(self).count() + 1,
            final(self).prefix() == old(self).prefix(),
    {
        let n = self.next;
        let digits = decimal_string(n);
        let text = self.prefix.clone().concat(digits.as_str());
        let ghost p = self.prefix@;
        proof {
            if old(self).issued().contains(text@) {
                let k = choose|k: nat| k < n && text@ == token_text(p, k);
                lemma_token_text_injective(p, k, n as nat);
            }
        }
        self.next = n + 1;
        proof {
            let a = self.issued();
            let b = old(self).issued().insert(text@);
            assert forall|s: Seq<char>| a.contains(s) implies b.contains(s) by {
                let k = choose|k: nat| k < n + 1 && s == token_text(p, k);
                if k < n {
                    assert(old(self).issued().contains(s));
                }
            }
            assert forall|s: Seq<char>| b.contains(s) implies a.contains(s) by {
                if s != text@ {
                    let k = choose|k: nat| k < n && s == token_text(p, k);
                    assert(k < n + 1);
                } else {
                    assert(n < n + 1 && s == token_text(p, n as nat));
                }
            }
            assert(a =~= b);
        }
        HandleToken { text }
    }
}

/// Each token of a run of issues is among those issued before any later one.
proof fn lemma_issued_later(tokens: Seq<Seq<char>>, issued: Seq<Set<Seq<char>>>, i: int, j: int)
    requires
        issued.len() == tokens.len() + 1,
        forall|k: int| 0 <= k < tokens.len() ==> #[trigger] issued[k + 1] == issued[k].insert(tokens[k]),
        0 <= i < j <= tokens.len(),
    ensures
        issued[j].contains(tokens[i]),
    decreases j - i,
{
    if j > i + 1 {
        lemma_issued_later(tokens, issued, i, j - 1);
        assert(issued[j - 1 + 1] == issued[j - 1].insert(tokens[j - 1]));
    } else {
        assert(issued[i + 1] == issued[i].insert(tokens[i]));
    }
}

/// Tokens issued one after another by one generator are pairwise distinct:
/// `issued[k]` is the generator's set of issued tokens before the `k`-th
/// issue, and `tokens[k]` the token that issue returned.
pub proof fn lemma_tokens_pairwise_distinct(tokens: Seq<Seq<char>>, issued: Seq<Set<Seq<char>>>)
    requires
        issued.len() == tokens.len() + 1,
        forall|k: int| 0 <= k < tokens.len() ==> !(#[trigger] issued[k]).contains(tokens[k]),
        forall|k: int| 0 <= k < tokens.len() ==> #[trigger] issued[k + 1] == issued[k].insert(tokens[k]),
    ensures
        forall|i: int, j: int| 0 <= i < j < tokens.len() ==> tokens[i] != tokens[j],
{
    assert forall|i: int, j: int| 0 <= i < j < tokens.len() implies tokens[i] != tokens[j] by {
        lemma_issued_later(tokens, issued, i, j);
        assert(!issued[j].contains(tokens[j]));
    }
}

} // verus!
