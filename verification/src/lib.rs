use vstd::prelude::*;

verus! {

// ---------------------------------------------------------------------------
// Mathematical model
// ---------------------------------------------------------------------------

/// A builder's configuration as a mathematical value: the target length
/// and one flag per optional character category.
pub ghost struct ConfigView {
    pub length: int,
    pub specials: bool,
    pub numbers: bool,
    pub uppercase: bool,
    pub underlines: bool,
}

/// The configuration a freshly created builder starts from:
/// length 20, every optional character category off.
pub open spec fn default_config() -> ConfigView {
    ConfigView { length: 20, specials: false, numbers: false, uppercase: false, underlines: false }
}

/// The 26 lowercase ASCII letters, in keyboard order.
pub open spec fn lowercase_chars() -> Seq<char> {
    "qwertyuiopasdfghjklzxcvbnm"@
}

/// The fixed set of special characters.
pub open spec fn special_chars() -> Seq<char> {
    "!\"$#%'()*+`-./:;<=>?@[\\]^{|}~&"@
}

/// The ten decimal digits.
pub open spec fn digit_chars() -> Seq<char> {
    "1234567890"@
}

/// The 26 uppercase ASCII letters, mirroring the lowercase order.
pub open spec fn uppercase_chars() -> Seq<char> {
    "QWERTYUIOPASDFGHJKLZXCVBNM"@
}

/// The underscore on its own.
pub open spec fn underline_chars() -> Seq<char> {
    "_"@
}

/// The alphabet a configuration samples from: the lowercase base, then each
/// enabled category appended in a fixed order.
pub open spec fn alphabet_of(c: ConfigView) -> Seq<char> {
    lowercase_chars() + (if c.specials {
        special_chars()
    } else {
        Seq::<char>::empty()
    }) + (if c.numbers {
        digit_chars()
    } else {
        Seq::<char>::empty()
    }) + (if c.uppercase {
        uppercase_chars()
    } else {
        Seq::<char>::empty()
    }) + (if c.underlines {
        underline_chars()
    } else {
        Seq::<char>::empty()
    })
}

/// Whether a character may occur in a password built from configuration `c`:
/// it is a lowercase letter, or belongs to a category that `c` enables.
pub open spec fn in_alphabet(c: ConfigView, ch: char) -> bool {
    ||| lowercase_chars().contains(ch)
    ||| c.specials && special_chars().contains(ch)
    ||| c.numbers && digit_chars().contains(ch)
    ||| c.uppercase && uppercase_chars().contains(ch)
    ||| c.underlines && underline_chars().contains(ch)
}

/// The number of characters a build from configuration `c` produces:
/// the target length, or zero if the target is negative.
pub open spec fn output_len(c: ConfigView) -> int {
    if c.length <= 0 {
        0
    } else {
        c.length
    }
}

// Configuration transitions, one per fluent mutator.

/// Setting the target length.
pub open spec fn with_length_set(c: ConfigView, n: int) -> ConfigView {
    ConfigView { length: n, ..c }
}

/// Enabling special characters.
pub open spec fn with_specials_on(c: ConfigView) -> ConfigView {
    ConfigView { specials: true, ..c }
}

/// Enabling digits.
pub open spec fn with_numbers_on(c: ConfigView) -> ConfigView {
    ConfigView { numbers: true, ..c }
}

/// Enabling uppercase letters.
pub open spec fn with_uppercase_on(c: ConfigView) -> ConfigView {
    ConfigView { uppercase: true, ..c }
}

/// Enabling the underscore.
pub open spec fn with_underlines_on(c: ConfigView) -> ConfigView {
    ConfigView { underlines: true, ..c }
}

// ---------------------------------------------------------------------------
// Laws of the alphabet
// ---------------------------------------------------------------------------

/// A concatenation contains exactly the elements of its two parts.
proof fn lemma_concat_contains<A>(a: Seq<A>, b: Seq<A>, x: A)
    ensures
        (a + b).contains(x) <==> a.contains(x) || b.contains(x),
{
    if a.contains(x) {
        let i = choose|i: int| 0 <= i < a.len() && a[i] == x;
        assert((a + b)[i] == x);
    }
    if b.contains(x) {
        let i = choose|i: int| 0 <= i < b.len() && b[i] == x;
        assert((a + b)[a.len() + i] == x);
    }
    if (a + b).contains(x) {
        let i = choose|i: int| 0 <= i < (a + b).len() && (a + b)[i] == x;
        if i < a.len() {
            assert(a[i] == x);
        } else {
            assert(b[i - a.len()] == x);
        }
    }
}

/// The alphabet of a configuration holds exactly the characters that
/// `in_alphabet` admits: the lowercase base and every enabled category.
pub proof fn lemma_alphabet_membership(c: ConfigView, ch: char)
    ensures
        alphabet_of(c).contains(ch) <==> in_alphabet(c, ch),
{
    let s1 = lowercase_chars();
    let s2 = if c.specials {
        special_chars()
    } else {
        Seq::<char>::empty()
    };
    let s3 = if c.numbers {
        digit_chars()
    } else {
        Seq::<char>::empty()
    };
    let s4 = if c.uppercase {
        uppercase_chars()
    } else {
        Seq::<char>::empty()
    };
    let s5 = if c.underlines {
        underline_chars()
    } else {
        Seq::<char>::empty()
    };
    lemma_concat_contains(s1 + s2 + s3 + s4, s5, ch);
    lemma_concat_contains(s1 + s2 + s3, s4, ch);
    lemma_concat_contains(s1 + s2, s3, ch);
    lemma_concat_contains(s1, s2, ch);
}

/// Every lowercase base letter stays available whatever categories a
/// configuration enables: no flag ever removes a base character.
pub proof fn lemma_base_always_available(c: ConfigView, ch: char)
    requires
        lowercase_chars().contains(ch),
    ensures
        alphabet_of(c).contains(ch),
{
    lemma_alphabet_membership(c, ch);
}

/// Enabling categories only grows the alphabet: whichever characters a
/// configuration offers, a configuration with at least the same flags
/// offers too, independently of the order the flags were enabled in.
pub proof fn lemma_alphabet_grows(c1: ConfigView, c2: ConfigView)
    requires
        c1.specials ==> c2.specials,
        c1.numbers ==> c2.numbers,
        c1.uppercase ==> c2.uppercase,
        c1.underlines ==> c2.underlines,
    ensures
        forall|ch: char| alphabet_of(c1).contains(ch) ==> alphabet_of(c2).contains(ch),
{
    assert forall|ch: char| alphabet_of(c1).contains(ch) implies alphabet_of(c2).contains(
        ch,
    ) by {
        lemma_alphabet_membership(c1, ch);
        lemma_alphabet_membership(c2, ch);
    }
}

/// The default configuration samples from the lowercase base alone.
pub proof fn lemma_default_alphabet()
    ensures
        alphabet_of(default_config()) == lowercase_chars(),
{
    assert(alphabet_of(default_config()) =~= lowercase_chars());
}

/// Enabling flags is order-independent: any two of the flag mutators
/// commute, so a chain of them reaches the same configuration — and with
/// it the same alphabet — in any order.
pub proof fn lemma_flag_order_independent(c: ConfigView)
    ensures
        with_specials_on(with_numbers_on(c)) == with_numbers_on(with_specials_on(c)),
        with_specials_on(with_uppercase_on(c)) == with_uppercase_on(with_specials_on(c)),
        with_specials_on(with_underlines_on(c)) == with_underlines_on(with_specials_on(c)),
        with_numbers_on(with_uppercase_on(c)) == with_uppercase_on(with_numbers_on(c)),
        with_numbers_on(with_underlines_on(c)) == with_underlines_on(with_numbers_on(c)),
        with_uppercase_on(with_underlines_on(c)) == with_underlines_on(with_uppercase_on(c)),
{
}

/// Each mutator is idempotent: applying it twice yields the same
/// configuration as applying it once.
pub proof fn lemma_mutators_idempotent(c: ConfigView, n: int)
    ensures
        with_length_set(with_length_set(c, n), n) == with_length_set(c, n),
        with_specials_on(with_specials_on(c)) == with_specials_on(c),
        with_numbers_on(with_numbers_on(c)) == with_numbers_on(c),
        with_uppercase_on(with_uppercase_on(c)) == with_uppercase_on(c),
        with_underlines_on(with_underlines_on(c)) == with_underlines_on(c),
{
}

// ---------------------------------------------------------------------------
// The builder
// ---------------------------------------------------------------------------

/// A fluent builder for random passwords: toggle character categories,
/// set a target length, then consume the builder with `build` to draw a
/// password uniformly from the composed alphabet.
pub struct PasswordBuilder {
    length: i32,
    include_special_characters: bool,
    use_numbers: bool,
    use_uppercase: bool,
    use_underlines: bool,
}

impl View for PasswordBuilder {
    type V = ConfigView;

    closed spec fn view(&self) -> ConfigView {
        ConfigView {
            length: self.length as int,
            specials: self.include_special_characters,
            numbers: self.use_numbers,
            uppercase: self.use_uppercase,
            underlines: self.use_underlines,
        }
    }
}

impl Default for PasswordBuilder {
    /// The default builder: length 20, every optional category off.
    fn default() -> (r: Self)
        ensures
            r@ == default_config(),
    {
        PasswordBuilder {
            length: 20,
            include_special_characters: false,
            use_numbers: false,
            use_uppercase: false,
            use_underlines: false,
        }
    }
}

/// Appends every character of `s`, in order, to `v`.
fn push_chars(v: &mut Vec<char>, s: &str)
    ensures
        final(v)@ == old(v)@ + s@,
{
    let n: usize = s.unicode_len();
    let mut i: usize = 0;
    while i < n
        invariant
            n == s@.len(),
            i <= n,
            v@ == old(v)@ + s@.subrange(0, i as int),
        decreases n - i,
    {
        let c: char = s.get_char(i);
        v.push(c);
        proof {
            assert(s@.subrange(0, i + 1) =~= s@.subrange(0, i as int).push(c));
        }
        i = i + 1;
    }
    proof {
        assert(s@.subrange(0, n as int) =~= s@);
    }
}

/// Relies on `rand::random_range` over `0..n`: a uniformly random index
/// below `n`, drawn from the thread-local generator. It panics on an empty
/// range, so `n` must be positive.
#[verifier::external_body]
fn random_index(n: usize) -> (r: usize)
    requires
        n > 0,
    ensures
        r < n,
{
    rand::random_range(0..n)
}

/// Relies on `String::push`: appends the given character to the end of
/// the string.
#[verifier::external_body]
fn push_char(s: &mut String, c: char)
    ensures
        final(s)@ == old(s)@.push(c),
{
    s.push(c)
}

impl PasswordBuilder {
    /// Makes a new `PasswordBuilder` with the default configuration.
    pub fn new() -> (r: Self)
        ensures
            r@ == default_config(),
    {
        Self::default()
    }

    /// Sets the password length parameter. Any value is accepted here;
    /// a zero or negative length makes `build` return an empty string.
    pub fn set_length(self, length: i32) -> (r: Self)
        ensures
            r@ == with_length_set(self@, length as int),
    {
        PasswordBuilder { length, ..self }
    }

    /// Enables the special-character category.
    pub fn include_special_characters(self) -> (r: Self)
        ensures
            r@ == with_specials_on(self@),
    {
        PasswordBuilder { include_special_characters: true, ..self }
    }

    /// Enables the digit category.
    pub fn use_numbers(self) -> (r: Self)
        ensures
            r@ == with_numbers_on(self@),
    {
        PasswordBuilder { use_numbers: true, ..self }
    }

    /// Enables the uppercase-letter category.
    pub fn use_uppercase(self) -> (r: Self)
        ensures
            r@ == with_uppercase_on(self@),
    {
        PasswordBuilder { use_uppercase: true, ..self }
    }

    /// Enables the underscore category.
    pub fn use_underlines(self) -> (r: Self)
        ensures
            r@ == with_underlines_on(self@),
    {
        PasswordBuilder { use_underlines: true, ..self }
    }

    /// The alphabet this configuration samples from, as a vector of
    /// characters: the lowercase base followed by each enabled category.
    pub fn alphabet(&self) -> (v: Vec<char>)
        ensures
            v@ == alphabet_of(self@),
            v@.len() > 0,
    {
        let mut v: Vec<char> = Vec::new();
        push_chars(&mut v, "qwertyuiopasdfghjklzxcvbnm");
        if self.include_special_characters {
            push_chars(&mut v, "!\"$#%'()*+`-./:;<=>?@[\\]^{|}~&");
        }
        if self.use_numbers {
            push_chars(&mut v, "1234567890");
        }
        if self.use_uppercase {
            push_chars(&mut v, "QWERTYUIOPASDFGHJKLZXCVBNM");
        }
        if self.use_underlines {
            push_chars(&mut v, "_");
        }
        proof {
            reveal_strlit("qwertyuiopasdfghjklzxcvbnm");
            assert(v@ =~= alphabet_of(self@));
        }
        v
    }

    /// Builds a password from the set parameters, consuming the builder:
    /// `output_len(self@)` characters, each drawn independently and
    /// uniformly from the composed alphabet.
    pub fn build(self) -> (password: String)
        ensures
            password@.len() == output_len(self@),
            forall|k: int|
                0 <= k < password@.len() ==> alphabet_of(self@).contains(#[trigger] password@[k]),
    {
        let alphabet: Vec<char> = self.alphabet();
        let mut password: String = String::new();
        let mut i: i32 = 0;
        while i < self.length
            invariant
                alphabet@ == alphabet_of(self@),
                alphabet@.len() > 0,
                self.length > 0 ==> 0 <= i <= self.length,
                self.length <= 0 ==> i == 0,
                password@.len() == i,
                forall|k: int|
                    0 <= k < password@.len() ==> alphabet_of(self@).contains(
                        #[trigger] password@[k],
                    ),
            decreases self.length - i,
        {
            let idx: usize = random_index(alphabet.len());
            let c: char = alphabet[idx];
            push_char(&mut password, c);
            proof {
                assert(alphabet_of(self@)[idx as int] == c);
            }
            i = i + 1;
        }
        password
    }
}

} // verus!
