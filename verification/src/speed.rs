//! Typing speed as a decimal numeral.

use vstd::prelude::*;
use vstd::string::*;

verus! {

/// One or more decimal digits and nothing else.
pub open spec fn digits(s: Seq<char>) -> bool {
    s.len() > 0 && forall|i: int| 0 <= i < s.len() ==> '0' <= #[trigger] s[i] <= '9'
}

/// Digits, optionally followed by a point and more digits.
pub open spec fn decimal(s: Seq<char>) -> bool {
    digits(s) || exists|k: int|
        0 <= k < s.len() && #[trigger] s[k] == '.' && digits(s.take(k)) && digits(s.skip(k + 1))
}

/// A numeral as the playback accepts it: a decimal with an optional minus
/// sign in front, or one of the three words for values that are no numbers.
pub open spec fn numeral(s: Seq<char>) -> bool {
    ||| decimal(s)
    ||| (s.len() > 0 && s[0] == '-' && decimal(s.skip(1)))
    ||| s == seq!['N', 'a', 'N']
    ||| s == seq!['i', 'n', 'f']
    ||| s == seq!['-', 'i', 'n', 'f']
}

/// No character of `s` is a digit other than zero or a letter: a numeral
/// built like this stands for zero.
pub open spec fn only_zeros(s: Seq<char>) -> bool {
    forall|i: int| 0 <= i < s.len() ==> (#[trigger] s[i] == '0' || s[i] == '.' || s[i] == '-')
}

/// Seconds per typed character, written as a decimal numeral.
///
/// The library records the speed, shows it and hands it on; whoever performs
/// the typing turns the numeral into a duration. Zero means no delay.
#[derive(Debug, PartialEq, Eq)]
pub struct Speed {
    text: String,
}

impl View for Speed {
    type V = Seq<char>;

    closed spec fn view(&self) -> Seq<char> {
        self.text@
    }
}

impl DeepView for Speed {
    type V = Seq<char>;

    open spec fn deep_view(&self) -> Seq<char> {
        self@
    }
}

/// Tells whether `s[from..to]` is one or more digits.
fn digits_in(s: &str, from: usize, to: usize) -> (b: bool)
    requires
        from <= to <= s@.len(),
    ensures
        b == digits(s@.subrange(from as int, to as int)),
{
    if from == to {
        return false;
    }
    let mut i: usize = from;
    while i < to
        invariant
            from <= i <= to <= s@.len(),
            forall|j: int| from <= j < i ==> '0' <= #[trigger] s@[j] <= '9',
        decreases to - i,
    {
        let c: char = s.get_char(i);
        if c < '0' || c > '9' {
            assert(s@.subrange(from as int, to as int)[i - from] == s@[i as int]);
            return false;
        }
        i += 1;
    }
    assert forall|j: int| 0 <= j < to - from implies '0' <= #[trigger] s@.subrange(
        from as int,
        to as int,
    )[j] <= '9' by {
        assert(s@.subrange(from as int, to as int)[j] == s@[from + j]);
    }
    true
}

/// Tells whether `s[from..]` is a decimal.
fn decimal_from(s: &str, from: usize) -> (b: bool)
    requires
        from <= s@.len(),
    ensures
        b == decimal(s@.skip(from as int)),
{
    let n: usize = s.unicode_len();
    let ghost tail = s@.skip(from as int);
    assert(tail =~= s@.subrange(from as int, n as int));
    let mut k: usize = from;
    while k < n && s.get_char(k) != '.'
        invariant
            from <= k <= n,
            n == s@.len(),
            forall|j: int| from <= j < k ==> #[trigger] s@[j] != '.',
        decreases n - k,
    {
        k += 1;
    }
    if k == n {
        assert(!exists|j: int|
            0 <= j < tail.len() && #[trigger] tail[j] == '.' && digits(tail.take(j)) && digits(
                tail.skip(j + 1),
            )) by {
            assert forall|j: int| 0 <= j < tail.len() implies #[trigger] tail[j] != '.' by {
                assert(tail[j] == s@[from + j]);
            }
        }
        digits_in(s, from, n)
    } else {
        let whole: bool = digits_in(s, from, k);
        let fraction: bool = digits_in(s, k + 1, n);
        proof {
            let p = k - from;
            assert(tail[p] == '.');
            assert(tail.take(p) =~= s@.subrange(from as int, k as int));
            assert(tail.skip(p + 1) =~= s@.subrange(k + 1, n as int));
            assert(!digits(tail));
            if !(whole && fraction) {
                assert forall|j: int|
                    0 <= j < tail.len() && #[trigger] tail[j] == '.' && digits(tail.take(j))
                        && digits(tail.skip(j + 1)) implies false by {
                    if j < p {
                        assert(tail[j] == s@[from + j]);
                    } else if j > p {
                        assert(tail.take(j)[p] == '.');
                    }
                }
            }
        }
        whole && fraction
    }
}

impl Speed {
    /// What a speed holds is a numeral.
    #[verifier::type_invariant]
    spec fn sound(&self) -> bool {
        numeral(self.text@)
    }

    /// Reads a speed from its numeral; `None` where `text` is no numeral.
    pub fn parse(text: &str) -> (speed: Option<Speed>)
        ensures
            speed is Some <==> numeral(text@),
            speed matches Some(s) ==> s@ == text@,
    {
        let n: usize = text.unicode_len();
        let mut ok: bool = decimal_from(text, 0);
        assert(text@.skip(0) =~= text@);
        if !ok && n > 0 && text.get_char(0) == '-' {
            ok = decimal_from(text, 1);
        }
        if !ok {
            ok = is_word(text);
        }
        if ok {
            Some(Speed { text: String::from_str(text) })
        } else {
            None
        }
    }

    /// The default speed: forty milliseconds for each character.
    pub fn standard() -> (speed: Speed)
        ensures
            speed@ == seq!['0', '.', '0', '4'],
            numeral(speed@),
    {
        proof {
            reveal_strlit("0.04");
            let s = seq!['0', '.', '0', '4'];
            assert(s.take(1) =~= seq!['0']);
            assert(s.skip(2) =~= seq!['0', '4']);
            assert(s[1] == '.');
            assert(digits(s.take(1)));
            assert(digits(s.skip(2)));
        }
        let speed = Speed { text: String::from_str("0.04") };
        assert(speed@ =~= seq!['0', '.', '0', '4']);
        speed
    }

    /// The numeral.
    pub fn as_str(&self) -> (text: &str)
        ensures
            text@ == self@,
            numeral(text@),
    {
        proof {
            use_type_invariant(self);
        }
        self.text.as_str()
    }

    /// A copy of this speed.
    pub fn duplicate(&self) -> (speed: Speed)
        ensures
            speed@ == self@,
    {
        proof {
            use_type_invariant(self);
        }
        Speed { text: self.text.clone() }
    }

    /// Tells whether the numeral stands for zero, which switches the typing
    /// delay off.
    pub fn is_zero(&self) -> (b: bool)
        ensures
            b == only_zeros(self@),
    {
        let text: &str = self.text.as_str();
        let n: usize = text.unicode_len();
        let mut i: usize = 0;
        while i < n
            invariant
                i <= n,
                n == text@.len(),
                text@ == self@,
                forall|j: int| 0 <= j < i ==> (#[trigger] text@[j] == '0' || text@[j] == '.'
                    || text@[j] == '-'),
            decreases n - i,
        {
            let c: char = text.get_char(i);
            if c != '0' && c != '.' && c != '-' {
                return false;
            }
            i += 1;
        }
        true
    }
}

/// Tells whether `s` is one of the three words for values that are no numbers.
fn is_word(s: &str) -> (b: bool)
    ensures
        b == (s@ == seq!['N', 'a', 'N'] || s@ == seq!['i', 'n', 'f'] || s@ == seq![
            '-',
            'i',
            'n',
            'f',
        ]),
{
    let n: usize = s.unicode_len();
    if n == 3 {
        let a: char = s.get_char(0);
        let b: char = s.get_char(1);
        let c: char = s.get_char(2);
        let found: bool = (a == 'N' && b == 'a' && c == 'N') || (a == 'i' && b == 'n' && c == 'f');
        proof {
            if found {
                assert(s@ =~= seq![a, b, c]);
            }
        }
        found
    } else if n == 4 {
        let found: bool = s.get_char(0) == '-' && s.get_char(1) == 'i' && s.get_char(2) == 'n'
            && s.get_char(3) == 'f';
        proof {
            if found {
                assert(s@ =~= seq!['-', 'i', 'n', 'f']);
            }
        }
        found
    } else {
        false
    }
}

} // verus!
