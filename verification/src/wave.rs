//! Buffers of samples and the algebra on them.
use vstd::prelude::*;

verus! {

/// The numbers of the library: amplitudes, gains and frequencies, with the
/// arithmetic on them.
///
/// The library never looks inside a sample. Its contracts speak of what these
/// operations return through the relations below ([`is_sum`], [`is_product`],
/// ...), so they hold for every implementation. None of the operations may
/// panic.
pub trait Sample: Copy {
    /// The amplitude of silence.
    fn zero() -> Self;

    /// The neutral gain.
    fn one() -> Self;

    /// `self + other`.
    fn plus(self, other: Self) -> Self;

    /// `self - other`.
    fn minus(self, other: Self) -> Self;

    /// `self * other`.
    fn times(self, other: Self) -> Self;

    /// `self / divisor`.
    fn over(self, divisor: Self) -> Self;

    /// The square root of `self`.
    fn root(self) -> Self;

    /// `self` raised to the power `exponent`.
    fn powf(self, exponent: Self) -> Self;

    /// The number `count` as a sample.
    fn from_count(count: usize) -> Self;

    /// Whether dividing by `self` is undefined.
    fn is_zero(self) -> bool;
}

/// `r` is a value that `S::zero()` returns.
pub open spec fn is_null<S: Sample>(r: S) -> bool {
    call_ensures(S::zero, (), r)
}

/// `r` is a value that `S::one()` returns.
pub open spec fn is_unit<S: Sample>(r: S) -> bool {
    call_ensures(S::one, (), r)
}

/// `r` is what `a.plus(b)` returns.
pub open spec fn is_sum<S: Sample>(a: S, b: S, r: S) -> bool {
    call_ensures(S::plus, (a, b), r)
}

/// `r` is what `a.minus(b)` returns.
pub open spec fn is_difference<S: Sample>(a: S, b: S, r: S) -> bool {
    call_ensures(S::minus, (a, b), r)
}

/// `r` is what `a.times(b)` returns.
pub open spec fn is_product<S: Sample>(a: S, b: S, r: S) -> bool {
    call_ensures(S::times, (a, b), r)
}

/// `r` is what `a.over(b)` returns.
pub open spec fn is_quotient<S: Sample>(a: S, b: S, r: S) -> bool {
    call_ensures(S::over, (a, b), r)
}

/// `r` is what `a.root()` returns.
pub open spec fn is_root<S: Sample>(a: S, r: S) -> bool {
    call_ensures(S::root, (a,), r)
}

/// `r` is what `a.powf(b)` returns.
pub open spec fn is_power<S: Sample>(a: S, b: S, r: S) -> bool {
    call_ensures(S::powf, (a, b), r)
}

/// `r` is what `S::from_count(count)` returns.
pub open spec fn is_count<S: Sample>(count: usize, r: S) -> bool {
    call_ensures(S::from_count, (count,), r)
}

/// `flag` is what `a.is_zero()` returns.
pub open spec fn tests_zero<S: Sample>(a: S, flag: bool) -> bool {
    call_ensures(S::is_zero, (a,), flag)
}

/// The buffer of `len` samples that are all `value`.
pub open spec fn filled<S>(len: nat, value: S) -> Seq<S> {
    Seq::new(len, |i: int| value)
}

/// `s` cut or extended to `new_len` samples, new slots holding `value`.
pub open spec fn resized<S>(s: Seq<S>, new_len: nat, value: S) -> Seq<S> {
    Seq::new(
        new_len,
        |i: int|
            if i < s.len() {
                s[i]
            } else {
                value
            },
    )
}

/// `after` is `base` with `other` added sample by sample from offset `index`
/// on; the samples outside `index .. index + other.len()` are untouched.
pub open spec fn is_overlay<S: Sample>(base: Seq<S>, other: Seq<S>, index: nat, after: Seq<S>) -> bool {
    &&& after.len() == base.len()
    &&& forall|i: int|
        0 <= i < base.len() ==> if index <= i < index + other.len() {
            is_sum(base[i], other[i - index], #[trigger] after[i])
        } else {
            after[i] == base[i]
        }
}

/// `after` is the mix of `other` into `before` at offset `index`: where
/// `before` is too short it is first extended with copies of one null
/// sample up to `index + other.len()`, then `other` is laid over it.
pub open spec fn is_mix<S: Sample>(before: Seq<S>, other: Seq<S>, index: nat, after: Seq<S>) -> bool {
    if index + other.len() <= before.len() {
        is_overlay(before, other, index, after)
    } else {
        exists|z: S|
            #![trigger is_null(z)]
            is_null(z) && is_overlay(resized(before, index + other.len(), z), other, index, after)
    }
}

/// `after` is `before` with every sample multiplied by `factor`.
pub open spec fn is_scaled<S: Sample>(before: Seq<S>, factor: S, after: Seq<S>) -> bool {
    &&& after.len() == before.len()
    &&& forall|i: int| 0 <= i < before.len() ==> is_product(before[i], factor, #[trigger] after[i])
}

/// `after` is `before` multiplied sample by sample with `factors`.
pub open spec fn is_modulated<S: Sample>(before: Seq<S>, factors: Seq<S>, after: Seq<S>) -> bool {
    &&& factors.len() == before.len()
    &&& after.len() == before.len()
    &&& forall|i: int| 0 <= i < before.len() ==> is_product(before[i], factors[i], #[trigger] after[i])
}

/// `after` is `before` with every sample divided by `divisor`.
pub open spec fn is_divided<S: Sample>(before: Seq<S>, divisor: S, after: Seq<S>) -> bool {
    &&& after.len() == before.len()
    &&& forall|i: int| 0 <= i < before.len() ==> is_quotient(before[i], divisor, #[trigger] after[i])
}

/// `total` is the sum of the squares of `s`, added up from a null sample in
/// the order of the buffer.
pub open spec fn is_square_sum<S: Sample>(s: Seq<S>, total: S) -> bool
    decreases s.len(),
{
    if s.len() == 0 {
        is_null(total)
    } else {
        exists|rest: S, square: S|
            is_square_sum(s.drop_last(), rest) && is_product(s.last(), s.last(), square) && is_sum(
                rest,
                square,
                total,
            )
    }
}

/// `norm` is the root of the mean of the squares of `s`.
pub open spec fn is_rms<S: Sample>(s: Seq<S>, norm: S) -> bool {
    exists|total: S, count: S, mean: S|
        is_square_sum(s, total) && is_count(s.len() as usize, count) && is_quotient(total, count, mean)
            && is_root(mean, norm)
}

/// `after` is `before` divided by its root mean square, or `before` itself
/// where that divisor tests as zero.
pub open spec fn is_normalized<S: Sample>(before: Seq<S>, after: Seq<S>) -> bool {
    exists|norm: S, degenerate: bool|
        is_rms(before, norm) && tests_zero(norm, degenerate) && if degenerate {
            after == before
        } else {
            is_divided(before, norm, after)
        }
}

/// A growable buffer of samples, addressed from index 0.
///
/// The view of a buffer is the sequence of its samples in order.
pub trait Wave: Clone {
    /// The type of one sample.
    type Sample: Sample;

    /// The samples, first to last.
    spec fn view(&self) -> Seq<Self::Sample>;

    /// A buffer holds no more samples than a `usize` can count.
    proof fn lemma_len_fits(&self)
        ensures
            self@.len() <= usize::MAX,
    ;

    /// An empty buffer.
    fn new() -> (w: Self)
        ensures
            w@.len() == 0,
    ;

    /// An empty buffer with room set aside for `capacity` samples.
    fn with_capacity(capacity: usize) -> (w: Self)
        ensures
            w@.len() == 0,
    ;

    /// `length` samples of silence, all the same null sample.
    fn zeros(length: usize) -> (w: Self)
        ensures
            exists|z: Self::Sample| #![trigger is_null(z)] is_null(z) && w@ == filled(length as nat, z),
    ;

    /// `length` samples, all the same unit sample.
    fn ones(length: usize) -> (w: Self)
        ensures
            exists|u: Self::Sample| #![trigger is_unit(u)] is_unit(u) && w@ == filled(length as nat, u),
    ;

    /// The buffer that holds exactly the samples of `vec`.
    fn from_vec(vec: Vec<Self::Sample>) -> (w: Self)
        ensures
            w@ == vec@,
    ;

    /// Cuts the buffer to `new_len` samples or extends it to that length
    /// with copies of `value`.
    fn resize(&mut self, new_len: usize, value: Self::Sample)
        ensures
            final(self)@ == resized(old(self)@, new_len as nat, value),
    ;

    /// Empties the buffer.
    fn clear(&mut self)
        ensures
            final(self)@.len() == 0,
    ;

    /// Mixes `other` into this buffer from sample `index` on, growing the
    /// buffer with silence where it is too short. The reach of `other`,
    /// `index + other.len()`, has to fit in a `usize`.
    fn add(&mut self, other: &Self, index: usize)
        requires
            index + other@.len() <= usize::MAX,
        ensures
            is_mix(old(self)@, other@, index as nat, final(self)@),
    ;

    /// As [`Wave::add`], taking `other` by value.
    fn add_consuming(&mut self, other: Self, index: usize)
        requires
            index + other@.len() <= usize::MAX,
        ensures
            is_mix(old(self)@, other@, index as nat, final(self)@),
    ;

    /// Multiplies every sample by `value`.
    fn scale(&mut self, value: Self::Sample)
        ensures
            is_scaled(old(self)@, value, final(self)@),
    ;

    /// Multiplies sample `i` by `vec[i]`, for every `i`. The caller sees to
    /// it that `vec` is as long as the buffer.
    fn scale_by_vec(&mut self, vec: Vec<Self::Sample>)
        requires
            old(self)@.len() == vec@.len(),
        ensures
            is_modulated(old(self)@, vec@, final(self)@),
    ;

    /// Multiplies sample `i` by sample `i` of `other`, for every `i`. The
    /// caller sees to it that `other` is as long as the buffer.
    fn mult(&mut self, other: &Self)
        requires
            old(self)@.len() == other@.len(),
        ensures
            is_modulated(old(self)@, other@, final(self)@),
    ;

    /// As [`Wave::mult`], taking `other` by value.
    fn mult_consuming(&mut self, other: Self)
        requires
            old(self)@.len() == other@.len(),
        ensures
            is_modulated(old(self)@, other@, final(self)@),
    ;

    /// The number of samples.
    fn len(&self) -> (n: usize)
        ensures
            n == self@.len(),
    ;

    /// Whether the buffer holds no sample.
    fn is_empty(&self) -> (b: bool)
        ensures
            b == (self@.len() == 0),
    ;

    /// Divides every sample by the root mean square of the buffer. A buffer
    /// whose root mean square tests as zero is left as it is.
    fn normalize(&mut self)
        ensures
            is_normalized(old(self)@, final(self)@),
    ;
}

/// A single channel of samples.
pub struct Mono<S: Sample> {
    wave: Vec<S>,
}

impl<S: Sample> Clone for Mono<S> {
    fn clone(&self) -> (w: Self)
        ensures
            w@ == self@,
    {
        Mono { wave: copy_of(&self.wave) }
    }
}

impl<S: Sample> Mono<S> {
    /// A copy of the samples.
    pub fn get_vec(&self) -> (v: Vec<S>)
        ensures
            v@ == self@,
    {
        copy_of(&self.wave)
    }
}

/// A vector with the same samples as `v`.
fn copy_of<S: Sample>(v: &Vec<S>) -> (out: Vec<S>)
    ensures
        out@ == v@,
{
    let mut out: Vec<S> = Vec::with_capacity(v.len());
    let mut i: usize = 0;
    while i < v.len()
        invariant
            i <= v.len(),
            out@ == v@.take(i as int),
        decreases v.len() - i,
    {
        out.push(v[i]);
        i += 1;
    }
    out
}

/// `len` copies of `value`.
fn repeat<S: Sample>(len: usize, value: S) -> (out: Vec<S>)
    ensures
        out@ == filled(len as nat, value),
{
    let mut out: Vec<S> = Vec::new();
    let mut i: usize = 0;
    while i < len
        invariant
            i <= len,
            out@ == filled(i as nat, value),
        decreases len - i,
    {
        out.push(value);
        i += 1;
    }
    out
}

/// Cuts `v` to `new_len` samples or extends it with copies of `value`.
fn resize_to<S: Sample>(v: &mut Vec<S>, new_len: usize, value: S)
    ensures
        final(v)@ == resized(old(v)@, new_len as nat, value),
{
    if new_len <= v.len() {
        v.truncate(new_len);
    } else {
        while v.len() < new_len
            invariant
                old(v)@.len() <= v.len() <= new_len,
                v@ == resized(old(v)@, v.len() as nat, value),
            decreases new_len - v.len(),
        {
            v.push(value);
        }
    }
}

/// Adds `other` into `v`, sample by sample, from offset `index` on.
fn overlay<S: Sample>(v: &mut Vec<S>, other: &Vec<S>, index: usize)
    requires
        index + other.len() <= old(v).len(),
    ensures
        is_overlay(old(v)@, other@, index as nat, final(v)@),
{
    let mut i: usize = 0;
    while i < other.len()
        invariant
            i <= other.len(),
            v.len() == old(v).len(),
            index + other.len() <= v.len(),
            is_overlay(old(v)@, other@.take(i as int), index as nat, v@),
        decreases other.len() - i,
    {
        let mixed = v[i + index].plus(other[i]);
        v[i + index] = mixed;
        i += 1;
    }
}

/// Multiplies `v` sample by sample with `factors`.
fn modulate<S: Sample>(v: &mut Vec<S>, factors: &Vec<S>)
    requires
        old(v).len() == factors.len(),
    ensures
        is_modulated(old(v)@, factors@, final(v)@),
{
    let mut i: usize = 0;
    while i < v.len()
        invariant
            i <= v.len(),
            v.len() == old(v).len(),
            v.len() == factors.len(),
            forall|j: int| 0 <= j < i ==> is_product(old(v)@[j], factors@[j], #[trigger] v@[j]),
            forall|j: int| i <= j < v.len() ==> v@[j] == old(v)@[j],
        decreases v.len() - i,
    {
        let scaled = v[i].times(factors[i]);
        v[i] = scaled;
        i += 1;
    }
}

impl<S: Sample> Wave for Mono<S> {
    type Sample = S;

    closed spec fn view(&self) -> Seq<S> {
        self.wave@
    }

    proof fn lemma_len_fits(&self) {
        assert(self.wave@.len() == self.wave.len());
    }

    fn new() -> (w: Self) {
        Mono { wave: Vec::new() }
    }

    fn with_capacity(capacity: usize) -> (w: Self) {
        Mono { wave: Vec::with_capacity(capacity) }
    }

    fn zeros(length: usize) -> (w: Self) {
        let z = S::zero();
        let w = Mono { wave: repeat(length, z) };
        assert(is_null(z) && w@ == filled(length as nat, z));
        w
    }

    fn ones(length: usize) -> (w: Self) {
        let u = S::one();
        let w = Mono { wave: repeat(length, u) };
        assert(is_unit(u) && w@ == filled(length as nat, u));
        w
    }

    fn from_vec(vec: Vec<S>) -> (w: Self) {
        Mono { wave: vec }
    }

    fn resize(&mut self, new_len: usize, value: S) {
        resize_to(&mut self.wave, new_len, value);
    }

    fn clear(&mut self) {
        self.wave = Vec::new();
    }

    fn add(&mut self, other: &Self, index: usize) {
        if self.wave.len() < index + other.wave.len() {
            let z = S::zero();
            assert(is_null(z));
            resize_to(&mut self.wave, index + other.wave.len(), z);
        }
        overlay(&mut self.wave, &other.wave, index);
    }

    fn add_consuming(&mut self, other: Self, index: usize) {
        self.add(&other, index);
    }

    fn scale(&mut self, value: S) {
        let mut i: usize = 0;
        while i < self.wave.len()
            invariant
                i <= self.wave.len(),
                self.wave.len() == old(self).wave.len(),
                forall|j: int| 0 <= j < i ==> is_product(old(self).wave@[j], value, #[trigger] self.wave@[j]),
                forall|j: int| i <= j < self.wave.len() ==> self.wave@[j] == old(self).wave@[j],
            decreases self.wave.len() - i,
        {
            let scaled = self.wave[i].times(value);
            self.wave[i] = scaled;
            i += 1;
        }
    }

    fn scale_by_vec(&mut self, vec: Vec<S>) {
        modulate(&mut self.wave, &vec);
    }

    fn mult(&mut self, other: &Self) {
        modulate(&mut self.wave, &other.wave);
    }

    fn mult_consuming(&mut self, other: Self) {
        modulate(&mut self.wave, &other.wave);
    }

    fn len(&self) -> (n: usize) {
        self.wave.len()
    }

    fn is_empty(&self) -> (b: bool) {
        self.wave.len() == 0
    }

    fn normalize(&mut self) {
        let norm = root_mean_square(&self.wave);
        let degenerate = norm.is_zero();
        assert(is_rms(old(self)@, norm) && tests_zero(norm, degenerate));
        if !degenerate {
            let mut i: usize = 0;
            while i < self.wave.len()
                invariant
                    i <= self.wave.len(),
                    self.wave.len() == old(self).wave.len(),
                    forall|j: int| 0 <= j < i ==> is_quotient(old(self).wave@[j], norm, #[trigger] self.wave@[j]),
                    forall|j: int| i <= j < self.wave.len() ==> self.wave@[j] == old(self).wave@[j],
                decreases self.wave.len() - i,
            {
                let divided = self.wave[i].over(norm);
                self.wave[i] = divided;
                i += 1;
            }
        }
    }
}

/// The root of the mean of the squares of `v`.
fn root_mean_square<S: Sample>(v: &Vec<S>) -> (norm: S)
    ensures
        is_rms(v@, norm),
{
    let mut total = S::zero();
    let mut i: usize = 0;
    while i < v.len()
        invariant
            i <= v.len(),
            is_square_sum(v@.take(i as int), total),
        decreases v.len() - i,
    {
        let square = v[i].times(v[i]);
        let next = total.plus(square);
        proof {
            let head = v@.take(i + 1);
            assert(head.drop_last() =~= v@.take(i as int));
            assert(is_square_sum(head.drop_last(), total) && is_product(head.last(), head.last(), square)
                && is_sum(total, square, next));
        }
        total = next;
        i += 1;
    }
    assert(v@.take(v.len() as int) == v@);
    let count = S::from_count(v.len());
    let mean = total.over(count);
    let norm = mean.root();
    assert(is_square_sum(v@, total) && is_count(v@.len() as usize, count) && is_quotient(total, count, mean)
        && is_root(mean, norm));
    norm
}

/// A mix is as long as the longer of the buffer and the reach of what is
/// mixed in.
pub proof fn lemma_mix_length<S: Sample>(before: Seq<S>, other: Seq<S>, index: nat, after: Seq<S>)
    requires
        is_mix(before, other, index, after),
    ensures
        after.len() == if index + other.len() <= before.len() {
            before.len()
        } else {
            index + other.len()
        },
{
}

/// Mixing a buffer into one of the same length at offset 0 gives the sums
/// of the samples at the same index.
pub proof fn lemma_mix_of_equal_lengths<S: Sample>(before: Seq<S>, other: Seq<S>, after: Seq<S>)
    requires
        before.len() == other.len(),
        is_mix(before, other, 0, after),
    ensures
        after.len() == before.len(),
        forall|i: int| 0 <= i < before.len() ==> is_sum(before[i], other[i], #[trigger] after[i]),
{
}

/// Mixing past the end of a buffer grows it to exactly `index +
/// other.len()`. The samples before `index` stay, the gap up to `index` is
/// filled with one null sample, and from `index` on stand the sums with the
/// samples of `other`, where the buffer had none with that null sample.
pub proof fn lemma_mix_grows<S: Sample>(before: Seq<S>, other: Seq<S>, index: nat, after: Seq<S>)
    requires
        index + other.len() > before.len(),
        is_mix(before, other, index, after),
    ensures
        after.len() == index + other.len(),
        exists|z: S|
            {
                &&& #[trigger] is_null(z)
                &&& forall|i: int| 0 <= i < index && i < before.len() ==> #[trigger] after[i] == before[i]
                &&& forall|i: int| before.len() <= i < index ==> #[trigger] after[i] == z
                &&& forall|i: int|
                    index <= i < index + other.len() ==> is_sum(
                        if i < before.len() {
                            before[i]
                        } else {
                            z
                        },
                        other[i - index],
                        #[trigger] after[i],
                    )
            },
{
    let z = choose|z: S|
        #![trigger is_null(z)]
        is_null(z) && is_overlay(resized(before, index + other.len(), z), other, index, after);
    assert(is_null(z));
}

/// Sums in `S` are exact: `zero` always returns the same sample, `plus` is
/// a function of its arguments and does not depend on their order, and a
/// null sample added to a sample gives that sample.
pub open spec fn has_exact_sums<S: Sample>() -> bool {
    &&& forall|y: S, z: S| is_null(y) && is_null(z) ==> y == z
    &&& forall|a: S, b: S, r: S, t: S| is_sum(a, b, r) && is_sum(a, b, t) ==> r == t
    &&& forall|a: S, b: S, r: S, t: S| is_sum(a, b, r) && is_sum(b, a, t) ==> r == t
    &&& forall|z: S, a: S, r: S| is_null(z) && is_sum(z, a, r) ==> r == a
}

/// With exact sums, mixing a buffer into the empty buffer at offset 0
/// gives the buffer itself.
pub proof fn lemma_mix_into_empty<S: Sample>(other: Seq<S>, after: Seq<S>)
    requires
        has_exact_sums::<S>(),
        is_mix(Seq::<S>::empty(), other, 0, after),
    ensures
        after == other,
{
    assert(after =~= other);
}

/// With exact sums, two buffers mixed at offset 0 into the empty buffer give
/// the same result in either order.
pub proof fn lemma_mix_commutes<S: Sample>(
    a: Seq<S>,
    b: Seq<S>,
    first_a: Seq<S>,
    a_then_b: Seq<S>,
    first_b: Seq<S>,
    b_then_a: Seq<S>,
)
    requires
        has_exact_sums::<S>(),
        is_mix(Seq::<S>::empty(), a, 0, first_a),
        is_mix(first_a, b, 0, a_then_b),
        is_mix(Seq::<S>::empty(), b, 0, first_b),
        is_mix(first_b, a, 0, b_then_a),
    ensures
        a_then_b == b_then_a,
{
    lemma_mix_into_empty(a, first_a);
    lemma_mix_into_empty(b, first_b);
    lemma_mix_length(a, b, 0, a_then_b);
    lemma_mix_length(b, a, 0, b_then_a);
    lemma_mix_samples(a, b, a_then_b);
    lemma_mix_samples(b, a, b_then_a);
    assert(a_then_b =~= b_then_a);
}

/// With exact sums, a mix at offset 0 holds the sum where both buffers have
/// a sample, and the sample of the one buffer where the other has none.
pub proof fn lemma_mix_samples<S: Sample>(before: Seq<S>, other: Seq<S>, after: Seq<S>)
    requires
        has_exact_sums::<S>(),
        is_mix(before, other, 0, after),
    ensures
        forall|i: int|
            0 <= i < after.len() ==> if i < before.len() && i < other.len() {
                is_sum(before[i], other[i], #[trigger] after[i])
            } else if i < before.len() {
                after[i] == before[i]
            } else {
                i < other.len() && after[i] == other[i]
            },
{
}

} // verus!
