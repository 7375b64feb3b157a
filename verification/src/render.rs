//! The textual form of a state: its significant terms, each a coefficient
//! and the basis state in binary, highest qubit first.

use crate::bits::bit_of;
use crate::bits::bit_set;
use crate::qreg::QReg;
use crate::scalar::abs_of;
use crate::scalar::amplitude;
use crate::scalar::amplitude_value;
use crate::scalar::ceil_of;
use crate::scalar::cx_div_real;
use crate::scalar::cx_mul;
use crate::scalar::imag_part;
use crate::scalar::imag_part_of;
use crate::scalar::log10_seen;
use crate::scalar::magnitude;
use crate::scalar::magnitude_seen;
use crate::scalar::magnitudes_seen;
use crate::scalar::powi_seen;
use crate::scalar::product_of;
use crate::scalar::prune_threshold;
use crate::scalar::prune_threshold_value;
use crate::scalar::quotient_by_real;
use crate::scalar::real_abs;
use crate::scalar::real_below;
use crate::scalar::real_ceil;
use crate::scalar::real_eq;
use crate::scalar::real_equal;
use crate::scalar::real_log10;
use crate::scalar::real_lt;
use crate::scalar::real_part;
use crate::scalar::real_part_of;
use crate::scalar::real_powi;
use crate::scalar::real_round;
use crate::scalar::real_text;
use crate::scalar::real_text_of;
use crate::scalar::real_to_i32;
use crate::scalar::rounded_of;
use crate::scalar::truncated_of;
use crate::scalar::zero;
use crate::scalar::zero_value;
use num_complex::Complex64;
use vstd::arithmetic::power2::lemma2_to64;
use vstd::arithmetic::power2::lemma_pow2_unfold;
use vstd::arithmetic::power2::pow2;
use vstd::prelude::*;
use vstd::string::StrSliceExecFns;
use vstd::string::StringExecFns;

verus! {

/// The number of binary digits of `i`, one at least.
pub open spec fn significant_bits(i: nat) -> nat
    decreases i,
{
    if i < 2 {
        1
    } else {
        1 + significant_bits(i / 2)
    }
}

/// Whether bit `p` of `i` is one; beyond the width of a machine word no
/// bit is.
pub open spec fn bit_at(i: usize, p: int) -> bool {
    0 <= p < usize::BITS && bit_set(i, p as usize)
}

/// The number of characters of the binary label of `i` at `width`.
pub open spec fn label_len(i: usize, width: usize) -> nat {
    if width as nat > significant_bits(i as nat) {
        width as nat
    } else {
        significant_bits(i as nat)
    }
}

/// `i` in binary, highest bit first, with zeros in front up to `width`
/// characters.
pub open spec fn binary_label_text(i: usize, width: usize) -> Seq<char> {
    Seq::new(
        label_len(i, width),
        |k: int|
            if bit_at(i, label_len(i, width) - 1 - k) {
                '1'
            } else {
                '0'
            },
    )
}

/// A term: the coefficient, a bar, the basis state, a bracket.
pub open spec fn term_text(coef: Seq<char>, i: usize, width: usize) -> Seq<char> {
    coef + seq!['|'] + binary_label_text(i, width) + seq!['>']
}

/// The texts in `parts`, with one space between neighbours.
pub open spec fn joined(parts: Seq<Seq<char>>) -> Seq<char>
    decreases parts.len(),
{
    if parts.len() == 0 {
        Seq::empty()
    } else if parts.len() == 1 {
        parts[0]
    } else {
        joined(parts.drop_last()) + seq![' '] + parts.last()
    }
}

/// The text of a coefficient from the texts of its two parts: the real
/// part alone where the imaginary part is negligible, else both.
pub open spec fn coef_text(re_text: Seq<char>, im_text: Seq<char>, im_small: bool) -> Seq<char> {
    if im_small {
        re_text
    } else {
        re_text + seq!['+'] + im_text + seq!['i']
    }
}

/// Whether `s` shows that it is the text of a real: it holds a point or an
/// exponent mark.
pub open spec fn shows_real(s: Seq<char>) -> bool {
    exists|k: int| 0 <= k < s.len() && (s[k] == '.' || s[k] == 'e' || s[k] == 'E')
}

/// `s` with `.0` behind it unless it shows that it is the text of a real.
pub open spec fn pointed(s: Seq<char>) -> Seq<char> {
    if shows_real(s) {
        s
    } else {
        s + seq!['.', '0']
    }
}

/// The gap between the digits asked for and the decimal exponent, kept
/// inside the 32-bit range.
pub open spec fn exponent_gap_value(n: i32, d: i32) -> i32 {
    if n - d > i32::MAX {
        i32::MAX
    } else if n - d < i32::MIN {
        i32::MIN
    } else {
        (n - d) as i32
    }
}

/// Whether `p` is a scale that was computed for rounding the real `x` to
/// `n` significant figures: `l` is a logarithm computed for the absolute
/// value of `x`, and `p` a power of ten computed for the exponent `n` less
/// the ceiling of `l`.
pub open spec fn scale_seen(x: Complex64, n: i32, l: Complex64, p: Complex64) -> bool {
    &&& log10_seen(abs_of(x), l)
    &&& powi_seen(amplitude_value(10, 0), exponent_gap_value(n, truncated_of(ceil_of(l))), p)
}

/// The real `x` rounded at the scale `p`: multiplied by it, rounded to a
/// whole number, divided by it.
pub open spec fn rounded_at(x: Complex64, p: Complex64) -> Complex64 {
    quotient_by_real(rounded_of(product_of(x, p)), p)
}

/// Whether `y` is the real `x` rounded to `n` significant figures: zero for
/// zero, else `x` rounded at a scale that was computed for it.
pub open spec fn sigfigs_rounded(x: Complex64, n: i32, y: Complex64) -> bool {
    if real_equal(x, zero_value()) {
        y == zero_value()
    } else {
        exists|l: Complex64, p: Complex64|
            #[trigger] scale_seen(x, n, l, p) && y == rounded_at(x, p)
    }
}

/// Whether `t` is the text of the real `x` with `y` as its rounding to 15
/// significant figures: the text of `y`, with a decimal point.
pub open spec fn real_shown_as(x: Complex64, y: Complex64, t: Seq<char>) -> bool {
    sigfigs_rounded(x, 15, y) && t == pointed(real_text_of(y))
}

/// Whether `t` is the text of the real `x`.
pub open spec fn real_shown(x: Complex64, t: Seq<char>) -> bool {
    exists|y: Complex64| #[trigger] real_shown_as(x, y, t)
}

/// Whether `c` is the text of the coefficient `a` with `re` and `im` as the
/// roundings of its two parts to 15 significant figures and `re_t` and
/// `im_t` as their texts: the real part alone if the absolute value of `im`
/// is below the pruning threshold, else both.
pub open spec fn coefficient_shown_as(
    a: Complex64,
    c: Seq<char>,
    re: Complex64,
    im: Complex64,
    re_t: Seq<char>,
    im_t: Seq<char>,
) -> bool {
    &&& sigfigs_rounded(real_part_of(a), 15, re)
    &&& sigfigs_rounded(imag_part_of(a), 15, im)
    &&& real_shown(re, re_t)
    &&& real_shown(im, im_t)
    &&& c == coef_text(re_t, im_t, real_below(abs_of(im), prune_threshold_value()))
}

/// Whether `c` is the text of the coefficient `a`.
pub open spec fn coefficient_shown(a: Complex64, c: Seq<char>) -> bool {
    exists|re: Complex64, im: Complex64, re_t: Seq<char>, im_t: Seq<char>|
        #[trigger] coefficient_shown_as(a, c, re, im, re_t, im_t)
}

/// The terms of those of the first `k` amplitudes that are shown: an
/// amplitude is shown if its magnitude `mags[i]` is above the pruning
/// threshold, and its term has the coefficient `coefs[i]`.
pub open spec fn shown_terms(
    k: nat,
    mags: Seq<Complex64>,
    coefs: Seq<Seq<char>>,
    width: usize,
) -> Seq<Seq<char>>
    decreases k,
{
    if k == 0 {
        Seq::empty()
    } else {
        let before = shown_terms((k - 1) as nat, mags, coefs, width);
        if real_below(prune_threshold_value(), mags[k - 1]) {
            before.push(term_text(coefs[k - 1], (k - 1) as usize, width))
        } else {
            before
        }
    }
}

/// Whether `mags` and `coefs` show how the state `v` is rendered: `mags`
/// holds a magnitude computed for each amplitude, and `coefs` the text of
/// the coefficient of each amplitude that is shown.
pub open spec fn rendering_parts(
    v: Seq<Complex64>,
    mags: Seq<Complex64>,
    coefs: Seq<Seq<char>>,
) -> bool {
    &&& magnitudes_seen(v, mags)
    &&& coefs.len() == v.len()
    &&& forall|i: int|
        0 <= i < v.len() && real_below(prune_threshold_value(), mags[i]) ==> coefficient_shown(
            v[i],
            #[trigger] coefs[i],
        )
}

/// Whether `text` is the rendering of the state `v` at `width` binary
/// digits: the terms of the amplitudes whose magnitude is above the pruning
/// threshold, in index order, with a space between neighbours, for the
/// magnitudes that were computed for the amplitudes of `v`, whatever they
/// came to.
pub open spec fn is_rendering(text: Seq<char>, v: Seq<Complex64>, width: usize) -> bool {
    exists|mags: Seq<Complex64>, coefs: Seq<Seq<char>>|
        #[trigger] rendering_parts(v, mags, coefs) && text == joined(
            shown_terms(v.len(), mags, coefs, width),
        )
}

/// The terms of the first `k` amplitudes do not depend on what follows
/// them.
pub proof fn lemma_shown_terms_prefix(
    k: nat,
    mags: Seq<Complex64>,
    coefs: Seq<Seq<char>>,
    more_mags: Seq<Complex64>,
    more_coefs: Seq<Seq<char>>,
    width: usize,
)
    requires
        k <= mags.len() <= more_mags.len(),
        k <= coefs.len() <= more_coefs.len(),
        forall|i: int| 0 <= i < k ==> mags[i] == more_mags[i],
        forall|i: int| 0 <= i < k ==> coefs[i] == more_coefs[i],
    ensures
        shown_terms(k, mags, coefs, width) == shown_terms(k, more_mags, more_coefs, width),
    decreases k,
{
    if k > 0 {
        lemma_shown_terms_prefix((k - 1) as nat, mags, coefs, more_mags, more_coefs, width);
    }
}

/// A number below two to the `m` has at most `m` binary digits, and a
/// machine word has at most as many as it is wide.
pub proof fn lemma_significant_bits(i: nat)
    ensures
        i < pow2(significant_bits(i)),
        i >= 2 ==> pow2((significant_bits(i) - 1) as nat) <= i,
        i <= usize::MAX ==> significant_bits(i) <= usize::BITS,
    decreases i,
{
    lemma2_to64();
    if i >= 2 {
        lemma_significant_bits(i / 2);
        lemma_pow2_unfold(significant_bits(i));
        if i / 2 >= 2 {
            lemma_pow2_unfold((significant_bits(i) - 1) as nat);
        }
    }
}

/// `i` in binary, highest bit first, with zeros in front up to `width`
/// characters.
pub fn binary_label(i: usize, width: usize) -> (s: String)
    ensures
        s@ == binary_label_text(i, width),
{
    let mut digits: usize = 1;
    let mut rest: usize = i;
    proof {
        lemma_significant_bits(i as nat);
    }
    while rest >= 2
        invariant
            digits >= 1,
            digits + significant_bits(rest as nat) == 1 + significant_bits(i as nat),
            significant_bits(i as nat) <= usize::BITS,
        decreases rest,
    {
        rest = rest / 2;
        digits = digits + 1;
    }
    let total = if width > digits {
        width
    } else {
        digits
    };
    let mut s = String::new();
    let mut k: usize = 0;
    while k < total
        invariant
            total == label_len(i, width),
            k <= total,
            s@.len() == k,
            forall|j: int|
                0 <= j < k ==> s@[j] == (if bit_at(i, total - 1 - j) {
                    '1'
                } else {
                    '0'
                }),
        decreases total - k,
    {
        let p = total - 1 - k;
        let is_one = p < usize::BITS as usize && bit_of(i, p);
        proof {
            reveal_strlit("1");
            reveal_strlit("0");
        }
        if is_one {
            s.append("1");
        } else {
            s.append("0");
        }
        k = k + 1;
    }
    assert(s@ =~= binary_label_text(i, width));
    s
}

/// The gap between the digits asked for and the decimal exponent, kept
/// inside the 32-bit range.
pub fn exponent_gap(n: i32, d: i32) -> (e: i32)
    ensures
        e == exponent_gap_value(n, d),
{
    let wide: i64 = n as i64 - d as i64;
    if wide > i32::MAX as i64 {
        i32::MAX
    } else if wide < i32::MIN as i64 {
        i32::MIN
    } else {
        wide as i32
    }
}

/// The real `x` rounded at the scale `power`: multiplied by it, rounded to
/// a whole number, divided by it.
pub fn round_at_scale(x: Complex64, power: Complex64) -> (r: Complex64)
    ensures
        r == rounded_at(x, power),
{
    cx_div_real(real_round(cx_mul(x, power)), power)
}

/// The real `x` rounded to `n` significant figures. Zero stays zero; any
/// other value is rounded at the scale of ten to the power of `n` less the
/// number of digits before its decimal point.
pub(crate) fn round_sigfigs(x: Complex64, n: i32) -> (r: Complex64)
    ensures
        sigfigs_rounded(x, n, r),
{
    if real_eq(x, zero()) {
        return zero();
    }
    let l = real_log10(real_abs(x));
    let d = real_to_i32(real_ceil(l));
    let power = real_powi(amplitude(10, 0), exponent_gap(n, d));
    let r = round_at_scale(x, power);
    assert(scale_seen(x, n, l, power));
    r
}

/// `s` with `.0` behind it unless it holds a point or an exponent mark.
pub fn with_point(s: String) -> (r: String)
    ensures
        r@ == pointed(s@),
{
    let len = s.as_str().unicode_len();
    let mut k: usize = 0;
    while k < len
        invariant
            len == s@.len(),
            k <= len,
            forall|j: int| 0 <= j < k ==> !(s@[j] == '.' || s@[j] == 'e' || s@[j] == 'E'),
        decreases len - k,
    {
        let c = s.as_str().get_char(k);
        if c == '.' || c == 'e' || c == 'E' {
            return s;
        }
        k = k + 1;
    }
    proof {
        reveal_strlit(".0");
        assert(".0"@ =~= seq!['.', '0']);
    }
    s.concat(".0")
}

/// The text of the real `x`: rounded to 15 significant figures, and always
/// with a decimal point.
pub(crate) fn format_real(x: Complex64) -> (s: String)
    ensures
        real_shown(x, s@),
{
    let y = round_sigfigs(x, 15);
    let s = with_point(real_text(y));
    assert(real_shown_as(x, y, s@));
    s
}

/// The text of a coefficient from the texts of its two parts.
pub fn coef_from_parts(re_text: String, im_text: &str, im_small: bool) -> (s: String)
    ensures
        s@ == coef_text(re_text@, im_text@, im_small),
{
    if im_small {
        re_text
    } else {
        proof {
            reveal_strlit("+");
            reveal_strlit("i");
        }
        let s = re_text.concat("+").concat(im_text).concat("i");
        assert(s@ =~= coef_text(re_text@, im_text@, im_small));
        s
    }
}

/// The text of the coefficient `a`: its real part alone if its imaginary
/// part, rounded to 15 significant figures, is negligible, else both parts.
pub(crate) fn qcoef(a: Complex64) -> (s: String)
    ensures
        coefficient_shown(a, s@),
{
    let re = round_sigfigs(real_part(a), 15);
    let im = round_sigfigs(imag_part(a), 15);
    let im_small = real_lt(real_abs(im), prune_threshold());
    let im_text = format_real(im);
    let re_text = format_real(re);
    let ghost re_t = re_text@;
    let s = coef_from_parts(re_text, im_text.as_str(), im_small);
    assert(coefficient_shown_as(a, s@, re, im, re_t, im_text@));
    s
}

/// A term from the text of its coefficient: the coefficient, a bar, the
/// index in binary at `width` digits, a bracket.
pub fn term_from_coef(coef: String, i: usize, width: usize) -> (s: String)
    ensures
        s@ == term_text(coef@, i, width),
{
    proof {
        reveal_strlit("|");
        reveal_strlit(">");
    }
    let label = binary_label(i, width);
    let s = coef.concat("|").concat(label.as_str()).concat(">");
    assert(s@ =~= term_text(coef@, i, width));
    s
}

/// The term of the amplitude `qi` at index `i` of a register of `n`
/// qubits.
pub(crate) fn qterm(i: usize, qi: Complex64, n: usize) -> (s: String)
    ensures
        exists|coef: Seq<char>|
            coefficient_shown(qi, coef) && s@ == #[trigger] term_text(coef, i, n),
{
    let coef = qcoef(qi);
    term_from_coef(coef, i, n)
}

impl QReg {
    /// The significant terms of the state, in index order, with a space
    /// between neighbours.
    pub fn terms(&self) -> (text: String)
        ensures
            is_rendering(text@, self@, self.qubits() as usize),
    {
        let n = self.n();
        let len = self.len();
        let threshold = prune_threshold();
        let mut text = String::new();
        let mut shown: usize = 0;
        let ghost mut mags: Seq<Complex64> = Seq::empty();
        let ghost mut coefs: Seq<Seq<char>> = Seq::empty();
        let mut i: usize = 0;
        while i < len
            invariant
                len == self@.len(),
                n == self.qubits(),
                threshold == prune_threshold_value(),
                i <= len,
                mags.len() == i,
                coefs.len() == i,
                forall|k: int| 0 <= k < i ==> magnitude_seen(self@[k], #[trigger] mags[k]),
                forall|k: int|
                    0 <= k < i && real_below(prune_threshold_value(), mags[k])
                        ==> coefficient_shown(self@[k], #[trigger] coefs[k]),
                shown == shown_terms(i as nat, mags, coefs, n).len(),
                shown <= i,
                text@ == joined(shown_terms(i as nat, mags, coefs, n)),
            decreases len - i,
        {
            let qi = self.amp(i);
            let mag = magnitude(qi);
            let ghost before = shown_terms(i as nat, mags, coefs, n);
            if real_lt(threshold, mag) {
                let term = qterm(i, qi, n);
                proof {
                    let coef = choose|coef: Seq<char>|
                        coefficient_shown(qi, coef) && term@ == #[trigger] term_text(coef, i, n);
                    lemma_shown_terms_prefix(
                        i as nat,
                        mags,
                        coefs,
                        mags.push(mag),
                        coefs.push(coef),
                        n,
                    );
                    mags = mags.push(mag);
                    coefs = coefs.push(coef);
                    let after = shown_terms((i + 1) as nat, mags, coefs, n);
                    assert(after == before.push(term@));
                    assert(after.drop_last() =~= before);
                    reveal_strlit(" ");
                }
                if shown > 0 {
                    text.append(" ");
                }
                text.append(term.as_str());
                shown = shown + 1;
                assert(text@ =~= joined(shown_terms((i + 1) as nat, mags, coefs, n)));
            } else {
                proof {
                    lemma_shown_terms_prefix(
                        i as nat,
                        mags,
                        coefs,
                        mags.push(mag),
                        coefs.push(Seq::empty()),
                        n,
                    );
                    mags = mags.push(mag);
                    coefs = coefs.push(Seq::empty());
                }
            }
            i = i + 1;
        }
        assert(rendering_parts(self@, mags, coefs));
        text
    }

    /// The state as text: its significant terms.
    pub fn to_string(&self) -> (text: String)
        ensures
            is_rendering(text@, self@, self.qubits() as usize),
    {
        self.terms()
    }
}

} // verus!
