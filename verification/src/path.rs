//! Names of backing files: a fixed prefix, the decimal sequence number padded
//! with zeros to ten digits, and a fixed suffix.

use vstd::prelude::*;

verus! {

/// Number of digits to which a sequence number is padded.
pub const INDEX_WIDTH: usize = 10;

/// The character that writes the digit `d` (meant for `0 <= d <= 9`).
pub open spec fn digit_char(d: int) -> char {
    if d == 0 {
        '0'
    } else if d == 1 {
        '1'
    } else if d == 2 {
        '2'
    } else if d == 3 {
        '3'
    } else if d == 4 {
        '4'
    } else if d == 5 {
        '5'
    } else if d == 6 {
        '6'
    } else if d == 7 {
        '7'
    } else if d == 8 {
        '8'
    } else {
        '9'
    }
}

/// The value of a digit character; any other character counts as nine.
pub open spec fn digit_value(c: char) -> nat {
    if c == '0' {
        0
    } else if c == '1' {
        1
    } else if c == '2' {
        2
    } else if c == '3' {
        3
    } else if c == '4' {
        4
    } else if c == '5' {
        5
    } else if c == '6' {
        6
    } else if c == '7' {
        7
    } else if c == '8' {
        8
    } else {
        9
    }
}

/// Decimal notation of `n`, most significant digit first, without leading zeros.
pub open spec fn decimal_digits(n: nat) -> Seq<char>
    decreases n,
{
    if n < 10 {
        seq![digit_char(n as int)]
    } else {
        decimal_digits(n / 10).push(digit_char((n % 10) as int))
    }
}

/// `count` zeros.
pub open spec fn zeros(count: nat) -> Seq<char> {
    Seq::new(count, |i: int| '0')
}

/// Decimal notation of `n`, padded on the left with zeros to at least `width` digits.
pub open spec fn zero_padded(n: nat, width: nat) -> Seq<char> {
    let digits = decimal_digits(n);
    if digits.len() >= width {
        digits
    } else {
        zeros((width - digits.len()) as nat) + digits
    }
}

/// The number that a sequence of digit characters writes.
pub open spec fn decimal_value(s: Seq<char>) -> nat
    decreases s.len(),
{
    if s.len() == 0 {
        0
    } else {
        decimal_value(s.drop_last()) * 10 + digit_value(s.last())
    }
}

/// What every backing file's name starts with.
pub open spec fn name_prefix() -> Seq<char> {
    seq!['g', 'o', 'o', 'f', 'y', '-', 'a', 'l', 'l', 'o', 'c', '_']
}

/// What every backing file's name ends with.
pub open spec fn name_suffix() -> Seq<char> {
    seq!['.', 'm', 'e', 'm']
}

/// Name of the backing file with sequence number `index`.
pub open spec fn backing_file_name_spec(index: u64) -> Seq<char> {
    name_prefix() + zero_padded(index as nat, INDEX_WIDTH as nat) + name_suffix()
}

/// The one-character string that writes the digit `d`.
fn digit_str(d: u8) -> (s: &'static str)
    requires
        d <= 9,
    ensures
        s@ == seq![digit_char(d as int)],
{
    proof {
        reveal_strlit("0");
        reveal_strlit("1");
        reveal_strlit("2");
        reveal_strlit("3");
        reveal_strlit("4");
        reveal_strlit("5");
        reveal_strlit("6");
        reveal_strlit("7");
        reveal_strlit("8");
        reveal_strlit("9");
    }
    let s = if d == 0 {
        "0"
    } else if d == 1 {
        "1"
    } else if d == 2 {
        "2"
    } else if d == 3 {
        "3"
    } else if d == 4 {
        "4"
    } else if d == 5 {
        "5"
    } else if d == 6 {
        "6"
    } else if d == 7 {
        "7"
    } else if d == 8 {
        "8"
    } else {
        "9"
    };
    assert(s@ =~= seq![digit_char(d as int)]);
    s
}

/// Appends the decimal notation of `n` to `out`.
fn push_decimal(out: &mut String, n: u64)
    ensures
        final(out)@ == old(out)@ + decimal_digits(n as nat),
    decreases n,
{
    if n >= 10 {
        push_decimal(out, n / 10);
    }
    out.append(digit_str((n % 10) as u8));
    assert(out@ =~= old(out)@ + decimal_digits(n as nat));
}

/// Ten to the power `k`.
pub open spec fn pow10(k: nat) -> nat
    decreases k,
{
    if k == 0 {
        1
    } else {
        10 * pow10((k - 1) as nat)
    }
}

/// A number below ten to the `k` is written with at most `k` digits.
proof fn lemma_decimal_len_bound(n: nat, k: nat)
    requires
        k >= 1,
        n < pow10(k),
    ensures
        1 <= decimal_digits(n).len() <= k,
    decreases n,
{
    if n >= 10 {
        assert(pow10(k) == 10 * pow10((k - 1) as nat));
        if k == 1 {
            assert(pow10(0) == 1);
        } else {
            assert(n / 10 < pow10((k - 1) as nat));
            lemma_decimal_len_bound(n / 10, (k - 1) as nat);
        }
    }
}

/// Number of digits in the decimal notation of `n`.
fn decimal_width(n: u64) -> (width: usize)
    ensures
        width == decimal_digits(n as nat).len(),
        1 <= width <= 20,
    decreases n,
{
    proof {
        reveal_with_fuel(pow10, 21);
        lemma_decimal_len_bound(n as nat, 20);
    }
    if n < 10 {
        1
    } else {
        1 + decimal_width(n / 10)
    }
}

/// Name of the backing file with sequence number `index`: the prefix, the
/// number in decimal padded with zeros to ten digits, and the suffix.
pub fn backing_file_name(index: u64) -> (name: String)
    ensures
        name@ == backing_file_name_spec(index),
{
    let mut name = String::new();
    proof {
        reveal_strlit("goofy-alloc_");
        reveal_strlit(".mem");
    }
    name.append("goofy-alloc_");
    assert(name@ =~= name_prefix());
    let width = decimal_width(index);
    let mut written: usize = width;
    while written < INDEX_WIDTH
        invariant
            width <= written,
            width < INDEX_WIDTH ==> written <= INDEX_WIDTH,
            width >= INDEX_WIDTH ==> written == width,
            name@ == name_prefix() + zeros((written - width) as nat),
        decreases INDEX_WIDTH - written,
    {
        proof {
            reveal_strlit("0");
        }
        name.append("0");
        written = written + 1;
        assert(name@ =~= name_prefix() + zeros((written - width) as nat));
    }
    let ghost padding = zeros((written - width) as nat);
    assert(padding + decimal_digits(index as nat) =~= zero_padded(index as nat, INDEX_WIDTH as nat));
    push_decimal(&mut name, index);
    name.append(".mem");
    assert(name@ =~= name_prefix() + (padding + decimal_digits(index as nat)) + name_suffix());
    name
}

/// Source of backing-file names: a counter that only grows, so that no
/// sequence number is handed out twice. The largest number of the counter's
/// type is never handed out: a generator that has reached it is exhausted.
#[derive(Debug)]
pub struct PathGenerator {
    counter: u64,
}

impl PathGenerator {
    /// The sequence number that the next request gets.
    pub closed spec fn upcoming(&self) -> u64 {
        self.counter
    }

    /// Whether the generator has no sequence number left to hand out.
    pub open spec fn is_exhausted(&self) -> bool {
        self.upcoming() == u64::MAX
    }

    /// A generator whose first sequence number is zero.
    pub fn new() -> (generator: Self)
        ensures
            generator.upcoming() == 0,
    {
        PathGenerator { counter: 0 }
    }

    /// A generator whose first sequence number is `first`.
    pub fn starting_at(first: u64) -> (generator: Self)
        ensures
            generator.upcoming() == first,
    {
        PathGenerator { counter: first }
    }

    /// Whether the generator has no sequence number left to hand out.
    pub fn exhausted(&self) -> (none_left: bool)
        ensures
            none_left == self.is_exhausted(),
    {
        self.counter == u64::MAX
    }

    /// Hands out the upcoming sequence number and moves on to the next.
    pub fn next_index(&mut self) -> (index: u64)
        requires
            !old(self).is_exhausted(),
        ensures
            index == old(self).upcoming(),
            final(self).upcoming() == old(self).upcoming() + 1,
    {
        let index = self.counter;
        self.counter = index + 1;
        index
    }

    /// Hands out the name of the next backing file and moves on.
    pub fn next_path(&mut self) -> (path: String)
        requires
            !old(self).is_exhausted(),
        ensures
            path@ == backing_file_name_spec(old(self).upcoming()),
            final(self).upcoming() == old(self).upcoming() + 1,
    {
        let index = self.next_index();
        backing_file_name(index)
    }

    /// Hands out the name of the next backing file, unless the generator is
    /// exhausted: then no name is handed out and the generator stays as it is.
    pub fn try_next_path(&mut self) -> (path: Option<String>)
        ensures
            match path {
                Some(name) => {
                    &&& !old(self).is_exhausted()
                    &&& name@ == backing_file_name_spec(old(self).upcoming())
                    &&& final(self).upcoming() == old(self).upcoming() + 1
                },
                None => {
                    &&& old(self).is_exhausted()
                    &&& final(self).upcoming() == old(self).upcoming()
                },
            },
    {
        if self.exhausted() {
            None
        } else {
            Some(self.next_path())
        }
    }
}

proof fn lemma_value_of_zeros(count: nat)
    ensures
        decimal_value(zeros(count)) == 0,
    decreases count,
{
    if count > 0 {
        assert(zeros(count).drop_last() =~= zeros((count - 1) as nat));
        lemma_value_of_zeros((count - 1) as nat);
    }
}

proof fn lemma_value_ignores_padding(count: nat, digits: Seq<char>)
    ensures
        decimal_value(zeros(count) + digits) == decimal_value(digits),
    decreases digits.len(),
{
    if digits.len() == 0 {
        assert(zeros(count) + digits =~= zeros(count));
        lemma_value_of_zeros(count);
    } else {
        assert((zeros(count) + digits).drop_last() =~= zeros(count) + digits.drop_last());
        lemma_value_ignores_padding(count, digits.drop_last());
    }
}

proof fn lemma_value_of_digits(n: nat)
    ensures
        decimal_value(decimal_digits(n)) == n,
    decreases n,
{
    if n < 10 {
        assert(decimal_digits(n).drop_last() =~= Seq::<char>::empty());
        assert(decimal_value(Seq::<char>::empty()) == 0);
    } else {
        assert(decimal_digits(n).drop_last() =~= decimal_digits(n / 10));
        lemma_value_of_digits(n / 10);
    }
}

/// Reading a padded number back gives the number.
pub proof fn lemma_zero_padded_value(n: nat, width: nat)
    ensures
        decimal_value(zero_padded(n, width)) == n,
{
    lemma_value_of_digits(n);
    let digits = decimal_digits(n);
    if digits.len() < width {
        lemma_value_ignores_padding((width - digits.len()) as nat, digits);
    }
}

/// Two backing files have the same name only if they have the same sequence
/// number: the sequence number can be read back from the name.
pub proof fn law_names_tell_indices_apart(a: u64, b: u64)
    ensures
        backing_file_name_spec(a) == backing_file_name_spec(b) <==> a == b,
{
    if backing_file_name_spec(a) == backing_file_name_spec(b) {
        let name = backing_file_name_spec(a);
        let pa = zero_padded(a as nat, INDEX_WIDTH as nat);
        let pb = zero_padded(b as nat, INDEX_WIDTH as nat);
        assert(name.len() == 12 + pa.len() + 4);
        assert(name.len() == 12 + pb.len() + 4);
        assert(name.subrange(12, name.len() - 4) =~= pa);
        assert(name.subrange(12, name.len() - 4) =~= pb);
        lemma_zero_padded_value(a as nat, INDEX_WIDTH as nat);
        lemma_zero_padded_value(b as nat, INDEX_WIDTH as nat);
    }
}

/// A request that finds the counter further on than an earlier one did gets
/// another name. Since every request moves the counter on, no two requests
/// of one generator get the same name.
pub proof fn law_paths_never_repeat(earlier: u64, later: u64)
    requires
        earlier < later,
    ensures
        backing_file_name_spec(earlier) != backing_file_name_spec(later),
{
    law_names_tell_indices_apart(earlier, later);
}

} // verus!
