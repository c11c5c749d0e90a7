use vstd::prelude::*;
use crate::conf::ConfError;

verus! {

/// Whether value `i` is selected in the bitmask `mask`: bit `i` is set.
pub open spec fn bit_sel(mask: u64, i: u64) -> bool {
    i < 64 && (mask >> i) & 1u64 == 1u64
}

/// Every selected value of `mask` lies in `[lo, hi]`.
pub open spec fn mask_within(mask: u64, lo: u64, hi: u64) -> bool {
    forall|i: u64| #[trigger] bit_sel(mask, i) ==> lo <= i <= hi
}

/// Some value in `[lo, hi]` is selected in `mask`.
pub open spec fn mask_some_between(mask: u64, lo: u64, hi: u64) -> bool {
    exists|i: u64| lo <= i <= hi && #[trigger] bit_sel(mask, i)
}

/// `v` is the smallest selected value of `mask`.
pub open spec fn is_min_sel(mask: u64, v: u64) -> bool {
    bit_sel(mask, v) && forall|j: u64| j < v ==> !bit_sel(mask, j)
}

/// Setting bit `k` selects exactly `k` in addition to what was selected.
pub proof fn lemma_bit_set(m: u64, k: u64)
    by (bit_vector)
    requires
        k < 64,
    ensures
        forall|i: u64| #[trigger] bit_sel(m | (1u64 << k), i) <==> (bit_sel(m, i) || i == k),
{
}

/// A union of masks selects the union of the selections.
pub proof fn lemma_bit_or(a: u64, b: u64)
    by (bit_vector)
    ensures
        forall|i: u64| #[trigger] bit_sel(a | b, i) <==> (bit_sel(a, i) || bit_sel(b, i)),
{
}

/// An intersection of masks selects the intersection of the selections.
pub proof fn lemma_bit_and(a: u64, b: u64)
    by (bit_vector)
    ensures
        forall|i: u64| #[trigger] bit_sel(a & b, i) <==> (bit_sel(a, i) && bit_sel(b, i)),
{
}

/// The zero mask selects nothing.
pub proof fn lemma_bit_zero()
    by (bit_vector)
    ensures
        forall|i: u64| !#[trigger] bit_sel(0u64, i),
{
}

/// The nonzero test `mask & (1 << i) > 0` agrees with `bit_sel`.
pub proof fn lemma_bit_test(m: u64, i: u64)
    by (bit_vector)
    requires
        i < 64,
    ensures
        (m & (1u64 << i) > 0) <==> bit_sel(m, i),
{
}

/// Smallest selected value of `mask` strictly above `after` and at most `max`,
/// if one exists.
pub(crate) fn mask_next_sel(mask: u64, after: u64, max: u64) -> (r: Option<u64>)
    requires
        max < 64,
    ensures
        r matches Some(v) ==> after < v <= max && bit_sel(mask, v) && (forall|j: u64|
            after < j < v ==> !bit_sel(mask, j)),
        r is None ==> forall|j: u64| after < j <= max ==> !bit_sel(mask, j),
{
    if after >= max {
        return None;
    }
    let mut first: u64 = after + 1;
    while first <= max
        invariant
            after < first <= max + 1,
            max < 64,
            forall|j: u64| after < j < first ==> !bit_sel(mask, j),
        decreases max + 1 - first,
    {
        if (mask >> first) & 1u64 == 1u64 {
            return Some(first);
        }
        first = first + 1;
    }
    None
}

/// Smallest selected value of `mask` in `[lo, max]`; some value there must be
/// selected.
pub(crate) fn mask_min_sel(mask: u64, lo: u64, max: u64) -> (r: u64)
    requires
        lo <= max < 64,
        mask_some_between(mask, lo, max),
    ensures
        lo <= r <= max,
        bit_sel(mask, r),
        forall|j: u64| lo <= j < r ==> !bit_sel(mask, j),
{
    let mut first: u64 = lo;
    loop
        invariant
            lo <= first <= max,
            max < 64,
            mask_some_between(mask, lo, max),
            forall|j: u64| lo <= j < first ==> !bit_sel(mask, j),
        decreases max - first,
    {
        if (mask >> first) & 1u64 == 1u64 {
            return first;
        }
        proof {
            if first == max {
                let i = choose|i: u64| lo <= i <= max && #[trigger] bit_sel(mask, i);
                assert(false);
            }
        }
        first = first + 1;
    }
}

/// Set every bit of `[lo, hi]` in `mask`.
pub(crate) fn mask_set_range(mask: u64, lo: u64, hi: u64) -> (r: u64)
    requires
        lo <= hi < 64,
    ensures
        forall|i: u64| #[trigger] bit_sel(r, i) <==> (bit_sel(mask, i) || lo <= i <= hi),
{
    let mut val: u64 = mask;
    let mut first: u64 = lo;
    while first <= hi
        invariant
            lo <= first <= hi + 1,
            hi < 64,
            forall|i: u64| #[trigger] bit_sel(val, i) <==> (bit_sel(mask, i) || lo <= i < first),
        decreases hi + 1 - first,
    {
        proof {
            lemma_bit_set(val, first);
        }
        val = val | (1u64 << first);
        first = first + 1;
    }
    val
}

/// The selected values of `mask` within `[lo, max]`, in increasing order.
pub(crate) fn mask_to_vec(mask: u64, lo: u64, max: u64) -> (r: Vec<u64>)
    requires
        lo <= max < 64,
    ensures
        forall|k: int| 0 <= k < r@.len() ==> lo <= #[trigger] r@[k] <= max && bit_sel(
            mask,
            r@[k],
        ),
        forall|k1: int, k2: int| 0 <= k1 < k2 < r@.len() ==> r@[k1] < r@[k2],
        forall|j: u64| lo <= j <= max && #[trigger] bit_sel(mask, j) ==> r@.contains(j),
{
    let mut res: Vec<u64> = Vec::new();
    let mut first: u64 = lo;
    while first <= max
        invariant
            lo <= first <= max + 1,
            max < 64,
            forall|k: int| 0 <= k < res@.len() ==> lo <= #[trigger] res@[k] < first && bit_sel(
                mask,
                res@[k],
            ),
            forall|k1: int, k2: int| 0 <= k1 < k2 < res@.len() ==> res@[k1] < res@[k2],
            forall|j: u64| lo <= j < first && #[trigger] bit_sel(mask, j) ==> res@.contains(j),
        decreases max + 1 - first,
    {
        if (mask >> first) & 1u64 == 1u64 {
            let ghost prev = res@;
            res.push(first);
            proof {
                assert forall|j: u64| lo <= j <= first && #[trigger] bit_sel(mask, j)
                    implies res@.contains(j) by {
                    if j == first {
                        assert(res@[prev.len() as int] == first);
                    } else {
                        assert(prev.contains(j));
                        let k = choose|k: int| 0 <= k < prev.len() && prev[k] == j;
                        assert(res@[k] == j);
                    }
                }
            }
        }
        first = first + 1;
    }
    res
}

/// Whether `mask` keeps to `[lo, hi]` and selects at least one value there.
pub(crate) fn mask_wf(mask: u64, lo: u64, hi: u64) -> (r: bool)
    requires
        lo <= hi < 64,
    ensures
        r == (mask_within(mask, lo, hi) && mask_some_between(mask, lo, hi)),
{
    let mut any: bool = false;
    let mut outside: bool = false;
    let mut i: u64 = 0;
    while i < 64
        invariant
            i <= 64,
            lo <= hi < 64,
            any == exists|j: u64| j < i && lo <= j <= hi && #[trigger] bit_sel(mask, j),
            outside == exists|j: u64| j < i && !(lo <= j <= hi) && #[trigger] bit_sel(mask, j),
        decreases 64 - i,
    {
        let ghost any0 = any;
        let ghost outside0 = outside;
        if (mask >> i) & 1u64 == 1u64 {
            if lo <= i && i <= hi {
                any = true;
            } else {
                outside = true;
            }
        }
        proof {
            if bit_sel(mask, i) {
                assert(i < i + 1 && bit_sel(mask, i));
            }
            if !any0 && (exists|j: u64|
                j < i + 1 && lo <= j <= hi && #[trigger] bit_sel(mask, j)) {
                let j = choose|j: u64| j < i + 1 && lo <= j <= hi && #[trigger] bit_sel(mask, j);
                assert(j == i);
            }
            if !outside0 && (exists|j: u64|
                j < i + 1 && !(lo <= j <= hi) && #[trigger] bit_sel(mask, j)) {
                let j = choose|j: u64| j < i + 1 && !(lo <= j <= hi) && #[trigger] bit_sel(
                    mask,
                    j,
                );
                assert(j == i);
            }
        }
        i = i + 1;
    }
    any && !outside
}

/// A typed field value that reads back as the plain number it stands for.
pub trait AsData: Copy + Sized {
    /// The number this value stands for.
    spec fn data_spec(&self) -> u64;

    fn as_data(self) -> (r: u64)
        ensures
            r == self.data_spec(),
    ;
}

/// A typed field value built from a plain number in the field's range.
pub trait FromData: AsData {
    /// Which plain numbers the field admits.
    spec fn valid_data(v: u64) -> bool;

    /// Every value of the type stands for an admitted number.
    proof fn lemma_data_valid(&self)
        ensures
            Self::valid_data(self.data_spec()),
    ;

    fn from_data(val: u64) -> (r: Self)
        requires
            Self::valid_data(val),
        ensures
            r.data_spec() == val,
    ;
}

/// Checked construction of a typed field value from a plain number.
pub trait TryFromData: FromData {
    fn try_from_data(val: u64) -> (r: Result<Self, ConfError>)
        ensures
            r is Ok <==> Self::valid_data(val),
            r matches Ok(d) ==> d.data_spec() == val,
    ;
}

/// A field cursor as the matcher drives it: it stands on a value, tests it
/// against its set, advances past it, and falls back to the set's smallest
/// value when a more significant field moves. The full contracts live on the
/// implementing types; this interface names the shared shape.
pub trait Computer: Sized {
    type DataTy;

    /// The value the cursor has chosen.
    spec fn chosen_spec(self) -> u64;

    /// The cursor's invariant.
    spec fn inv(self) -> bool;

    /// Fall back to the set's smallest value for a fresh cycle.
    fn update_to_next_ring(&mut self)
        requires
            old(self).inv(),
    ;

    /// Whether the value the cursor stands on is selected.
    fn is_match(&self) -> bool
        requires
            self.inv(),
    ;

    /// The next selected value after the one the cursor stands on, if any.
    fn next_val(&self) -> Option<Self::DataTy>
        requires
            self.inv(),
    ;

    /// The set's smallest value.
    fn min_val(&self) -> Self::DataTy
        requires
            self.inv(),
    ;

    /// Record the chosen value.
    fn val_mut(&mut self, val: Self::DataTy);

    /// The chosen value.
    fn val(&self) -> (r: u64)
        ensures
            r == self.chosen_spec(),
    ;
}

/// The operations shared by every field-set configuration: a bitmask over the
/// field's closed value range `[min_spec(), max_spec()]`.
pub trait ConfigOperator: Sized {
    type DataTy: TryFromData;

    /// The least value the field admits.
    spec fn min_spec() -> u64;

    /// The greatest value the field admits.
    spec fn max_spec() -> u64;

    /// The underlying bitmask.
    spec fn mask(&self) -> u64;

    /// The field's range is a nonempty subrange of a 64-bit mask, and the
    /// typed values stand exactly for the numbers of that range.
    proof fn range_facts()
        ensures
            Self::min_spec() <= Self::max_spec() < 64,
            forall|v: u64| #[trigger] <Self::DataTy as FromData>::valid_data(v)
                <==> Self::min_spec() <= v <= Self::max_spec(),
    ;

    fn min_value() -> (r: u64)
        ensures
            r == Self::min_spec(),
    ;

    fn max_value() -> (r: u64)
        ensures
            r == Self::max_spec(),
    ;

    fn _default() -> (r: Self)
        ensures
            r.mask() == 0,
    ;

    fn _val(&self) -> (r: u64)
        ensures
            r == self.mask(),
    ;

    fn _val_mut(&mut self, val: u64)
        ensures
            final(self).mask() == val,
    ;

    /// The set holding exactly `val`.
    fn default_value(val: Self::DataTy) -> (r: Self)
        ensures
            forall|i: u64| #[trigger] bit_sel(r.mask(), i) <==> i == val.data_spec(),
    {
        proof {
            lemma_bit_zero();
        }
        let ins = Self::_default();
        ins.add(val)
    }

    /// The set holding the values of `[start, end)`; the start must lie before
    /// the end.
    fn default_range(start: Self::DataTy, end: Self::DataTy) -> (r: Result<Self, ConfError>)
        ensures
            r is Ok <==> start.data_spec() < end.data_spec(),
            r matches Ok(s) ==> forall|i: u64| #[trigger] bit_sel(s.mask(), i) <==> start.data_spec()
                <= i < end.data_spec(),
    {
        proof {
            lemma_bit_zero();
        }
        let ins = Self::_default();
        ins.add_range(start, end)
    }

    /// The set holding every value of the field's range.
    fn default_all() -> (r: Self)
        ensures
            forall|i: u64| #[trigger] bit_sel(r.mask(), i) <==> Self::min_spec() <= i
                <= Self::max_spec(),
    {
        proof {
            Self::range_facts();
            lemma_bit_zero();
        }
        let mut ins = Self::_default();
        let val = mask_set_range(ins._val(), Self::min_value(), Self::max_value());
        ins._val_mut(val);
        ins
    }

    /// The set holding every value from the field's least one up to `max`.
    fn default_all_by_max(max: Self::DataTy) -> (r: Self)
        ensures
            forall|i: u64| #[trigger] bit_sel(r.mask(), i) <==> Self::min_spec() <= i
                <= max.data_spec(),
    {
        proof {
            Self::range_facts();
            max.lemma_data_valid();
            lemma_bit_zero();
        }
        let mut ins = Self::_default();
        let val = mask_set_range(ins._val(), Self::min_value(), max.as_data());
        ins._val_mut(val);
        ins
    }

    /// The set holding exactly the listed values.
    fn default_array(vals: &[Self::DataTy]) -> (r: Self)
        ensures
            forall|i: u64| #[trigger] bit_sel(r.mask(), i) <==> exists|k: int|
                0 <= k < vals@.len() && vals@[k].data_spec() == i,
    {
        proof {
            lemma_bit_zero();
        }
        let ins = Self::_default();
        ins.add_array(vals)
    }

    /// Add the listed values to the set.
    fn add_array(self, vals: &[Self::DataTy]) -> (r: Self)
        ensures
            forall|i: u64| #[trigger] bit_sel(r.mask(), i) <==> (bit_sel(self.mask(), i)
                || exists|k: int| 0 <= k < vals@.len() && vals@[k].data_spec() == i),
    {
        let mut val = self._val();
        let mut k: usize = 0;
        while k < vals.len()
            invariant
                k <= vals@.len(),
                forall|i: u64| #[trigger] bit_sel(val, i) <==> (bit_sel(self.mask(), i)
                    || exists|j: int| 0 <= j < k && vals@[j].data_spec() == i),
            decreases vals@.len() - k,
        {
            let d = vals[k];
            proof {
                d.lemma_data_valid();
                Self::range_facts();
                lemma_bit_set(val, d.data_spec());
            }
            val = val | (1u64 << d.as_data());
            k = k + 1;
        }
        let mut s = self;
        s._val_mut(val);
        s
    }

    /// Add one value to the set.
    fn add(self, index: Self::DataTy) -> (r: Self)
        ensures
            forall|i: u64| #[trigger] bit_sel(r.mask(), i) <==> (bit_sel(self.mask(), i) || i
                == index.data_spec()),
    {
        proof {
            index.lemma_data_valid();
            Self::range_facts();
            lemma_bit_set(self.mask(), index.data_spec());
        }
        let val = self._val() | (1u64 << index.as_data());
        let mut s = self;
        s._val_mut(val);
        s
    }

    /// Add the values of `[start, end)` to the set; the start must lie before
    /// the end.
    fn add_range(self, start: Self::DataTy, end: Self::DataTy) -> (r: Result<Self, ConfError>)
        ensures
            r is Ok <==> start.data_spec() < end.data_spec(),
            r matches Ok(s) ==> forall|i: u64| #[trigger] bit_sel(s.mask(), i) <==> (bit_sel(
                self.mask(),
                i,
            ) || start.data_spec() <= i < end.data_spec()),
    {
        proof {
            start.lemma_data_valid();
            end.lemma_data_valid();
            Self::range_facts();
        }
        let first = start.as_data();
        let last = end.as_data();
        if first >= last {
            return Err(ConfError::InvalidRange);
        }
        let val = mask_set_range(self._val(), first, last - 1);
        let mut s = self;
        s._val_mut(val);
        Ok(s)
    }

    /// The union of two sets.
    fn merge(&self, other: &Self) -> (r: Self)
        ensures
            forall|i: u64| #[trigger] bit_sel(r.mask(), i) <==> (bit_sel(self.mask(), i)
                || bit_sel(other.mask(), i)),
    {
        proof {
            lemma_bit_or(self.mask(), other.mask());
        }
        let mut new = Self::_default();
        new._val_mut(self._val() | other._val());
        new
    }

    /// The intersection of two sets.
    fn intersection(&self, other: &Self) -> (r: Self)
        ensures
            forall|i: u64| #[trigger] bit_sel(r.mask(), i) <==> (bit_sel(self.mask(), i)
                && bit_sel(other.mask(), i)),
    {
        proof {
            lemma_bit_and(self.mask(), other.mask());
        }
        let mut new = Self::_default();
        new._val_mut(self._val() & other._val());
        new
    }

    /// The selected values, in increasing order.
    fn to_vec(&self) -> (r: Vec<u64>)
        ensures
            forall|k: int| 0 <= k < r@.len() ==> Self::min_spec() <= #[trigger] r@[k]
                <= Self::max_spec() && bit_sel(self.mask(), r@[k]),
            forall|k1: int, k2: int| 0 <= k1 < k2 < r@.len() ==> r@[k1] < r@[k2],
            forall|j: u64| Self::min_spec() <= j <= Self::max_spec() && #[trigger] bit_sel(
                self.mask(),
                j,
            ) ==> r@.contains(j),
    {
        proof {
            Self::range_facts();
        }
        mask_to_vec(self._val(), Self::min_value(), Self::max_value())
    }

    /// Whether the set holds `index`.
    fn contain(&self, index: Self::DataTy) -> (r: bool)
        ensures
            r == bit_sel(self.mask(), index.data_spec()),
    {
        proof {
            index.lemma_data_valid();
            Self::range_facts();
        }
        let i = index.as_data();
        let val = self._val();
        proof {
            lemma_bit_test(val, i);
        }
        val & (1u64 << i) > 0
    }

    /// The smallest selected value strictly above `index`, if any.
    fn next(&self, index: Self::DataTy) -> (r: Option<Self::DataTy>)
        ensures
            r matches Some(v) ==> index.data_spec() < v.data_spec() <= Self::max_spec() && bit_sel(
                self.mask(),
                v.data_spec(),
            ) && (forall|j: u64| index.data_spec() < j < v.data_spec() ==> !bit_sel(
                self.mask(),
                j,
            )),
            r is None ==> forall|j: u64| index.data_spec() < j <= Self::max_spec() ==> !bit_sel(
                self.mask(),
                j,
            ),
    {
        proof {
            index.lemma_data_valid();
            Self::range_facts();
        }
        match mask_next_sel(self._val(), index.as_data(), Self::max_value()) {
            Some(v) => Some(Self::DataTy::from_data(v)),
            None => None,
        }
    }

    /// The smallest selected value; the set must hold one.
    fn min_val(&self) -> (r: Self::DataTy)
        requires
            mask_some_between(self.mask(), Self::min_spec(), Self::max_spec()),
        ensures
            Self::min_spec() <= r.data_spec() <= Self::max_spec(),
            bit_sel(self.mask(), r.data_spec()),
            forall|j: u64| Self::min_spec() <= j < r.data_spec() ==> !bit_sel(self.mask(), j),
    {
        proof {
            Self::range_facts();
        }
        let v = mask_min_sel(self._val(), Self::min_value(), Self::max_value());
        Self::DataTy::from_data(v)
    }
}

} // verus!
