//! Combining parameters into the combinations a template is expanded over.
//!
//! `product` mode takes every combination of the parameters' values (the
//! first parameter varies slowest); `zip` mode takes the k-th value of every
//! parameter together, which needs all parameters to have as many values.

use vstd::prelude::*;

use crate::parameters::{
    all_well_formed, parse_parameter, parse_parameter_value, values_view, ParamVal,
    ParameterValue,
};
use crate::templates::{bindings_view, bindings_well_formed, Bindings};
use crate::text::{chars_eq, chars_of, lit};

verus! {

/// Parameters by name, each with its text (`"1:5"`, `"[a, b]"`, ...).
pub type ParameterMap = Vec<(String, String)>;

/// Parameters by name, each with its values.
pub type ParameterValues = Vec<(String, Vec<ParameterValue>)>;

pub open spec fn map_view(m: Seq<(String, String)>) -> Seq<(Seq<char>, Seq<char>)> {
    m.map_values(|p: (String, String)| (p.0@, p.1@))
}

pub open spec fn values_map_view(p: Seq<(String, Vec<ParameterValue>)>) -> Seq<
    (Seq<char>, Seq<ParamVal>),
> {
    p.map_values(|e: (String, Vec<ParameterValue>)| (e.0@, values_view(e.1@)))
}

pub open spec fn values_map_well_formed(p: Seq<(String, Vec<ParameterValue>)>) -> bool {
    forall|i: int| 0 <= i < p.len() ==> all_well_formed((#[trigger] p[i]).1@)
}

/// The values of every parameter, or the message of the first that cannot be read.
pub open spec fn parse_all(m: Seq<(Seq<char>, Seq<char>)>) -> Result<
    Seq<(Seq<char>, Seq<ParamVal>)>,
    Seq<char>,
>
    decreases m.len(),
{
    if m.len() == 0 {
        Ok(Seq::empty())
    } else {
        match parse_all(m.drop_last()) {
            Err(e) => Err(e),
            Ok(prev) => match parse_parameter(m.last().1) {
                Err(e) => Err(e),
                Ok(vs) => Ok(prev.push((m.last().0, vs))),
            },
        }
    }
}

pub type Combo = Seq<(Seq<char>, ParamVal)>;

/// For the first `j` values of one parameter, each followed by every
/// combination of the remaining parameters.
pub open spec fn prod_outer(name: Seq<char>, vals: Seq<ParamVal>, rest: Seq<Combo>, j: int) -> Seq<
    Combo,
>
    decreases j,
{
    if j <= 0 {
        Seq::empty()
    } else {
        prod_outer(name, vals, rest, j - 1) + rest.map_values(
            |c: Combo| seq![(name, vals[j - 1])] + c,
        )
    }
}

/// Every combination of the parameters' values, the first parameter slowest.
pub open spec fn product(ps: Seq<(Seq<char>, Seq<ParamVal>)>) -> Seq<Combo>
    decreases ps.len(),
{
    if ps.len() == 0 {
        seq![Seq::empty()]
    } else {
        prod_outer(ps[0].0, ps[0].1, product(ps.drop_first()), ps[0].1.len() as int)
    }
}

/// The k-th values of all parameters together; `None` when the parameters
/// have different numbers of values.
pub open spec fn zip(ps: Seq<(Seq<char>, Seq<ParamVal>)>) -> Option<Seq<Combo>> {
    if ps.len() == 0 {
        Some(seq![Seq::empty()])
    } else if forall|j: int| 0 <= j < ps.len() ==> (#[trigger] ps[j]).1.len() == ps[0].1.len() {
        Some(
            Seq::new(
                ps[0].1.len(),
                |k: int| Seq::new(ps.len(), |j: int| (ps[j].0, ps[j].1[k])),
            ),
        )
    } else {
        None
    }
}

pub open spec fn zip_mismatch_message() -> Seq<char> {
    "All parameters must have the same number of values in zip mode"@
}

pub open spec fn is_zip_mode(mode: Option<Seq<char>>) -> bool {
    mode == Some("zip"@)
}

/// The combinations of a parameter map under a mode (`zip`, or else product).
pub open spec fn combinations(m: Seq<(Seq<char>, Seq<char>)>, mode: Option<Seq<char>>) -> Result<
    Seq<Combo>,
    Seq<char>,
> {
    match parse_all(m) {
        Err(e) => Err(e),
        Ok(ps) => if is_zip_mode(mode) {
            match zip(ps) {
                Some(cs) => Ok(cs),
                None => Err(zip_mismatch_message()),
            }
        } else {
            Ok(product(ps))
        },
    }
}

pub open spec fn combos_view(cs: Seq<Bindings>) -> Seq<Combo> {
    cs.map_values(|c: Bindings| bindings_view(c@))
}

pub open spec fn combos_well_formed(cs: Seq<Bindings>) -> bool {
    forall|i: int| 0 <= i < cs.len() ==> bindings_well_formed((#[trigger] cs[i])@)
}

/// Reads every parameter's values.
pub fn parse_parameter_map(m: &ParameterMap) -> (r: Result<ParameterValues, String>)
    ensures
        match r {
            Ok(ps) => parse_all(map_view(m@)) == Ok::<_, Seq<char>>(values_map_view(ps@))
                && values_map_well_formed(ps@),
            Err(e) => parse_all(map_view(m@)) == Err::<Seq<(Seq<char>, Seq<ParamVal>)>, _>(
                e@,
            ),
        },
{
    let mut out: ParameterValues = Vec::new();
    let mut j: usize = 0;
    proof {
        assert(map_view(m@).take(0) =~= Seq::<(Seq<char>, Seq<char>)>::empty());
        assert(values_map_view(out@) =~= Seq::<(Seq<char>, Seq<ParamVal>)>::empty());
    }
    while j < m.len()
        invariant
            j <= m.len(),
            parse_all(map_view(m@).take(j as int)) == Ok::<_, Seq<char>>(values_map_view(out@)),
            values_map_well_formed(out@),
        decreases m.len() - j,
    {
        let parsed = parse_parameter_value(m[j].1.as_str());
        proof {
            assert(map_view(m@).take(j + 1).drop_last() =~= map_view(m@).take(j as int));
            assert(map_view(m@).take(j + 1).last() == (m@[j as int].0@, m@[j as int].1@));
        }
        match parsed {
            Err(e) => {
                proof {
                    lemma_parse_all_error_persists(map_view(m@), j as int + 1, e@);
                    assert(map_view(m@).take(m.len() as int) =~= map_view(m@));
                }
                return Err(e);
            },
            Ok(vs) => {
                let ghost prev = out@;
                let name = m[j].0.clone();
                out.push((name, vs));
                proof {
                    assert(values_map_view(out@) =~= values_map_view(prev).push(
                        (m@[j as int].0@, values_view(vs@)),
                    ));
                }
            },
        }
        j = j + 1;
    }
    proof {
        assert(map_view(m@).take(m.len() as int) =~= map_view(m@));
    }
    Ok(out)
}

pub proof fn lemma_parse_all_error_persists(m: Seq<(Seq<char>, Seq<char>)>, j: int, e: Seq<char>)
    requires
        0 <= j <= m.len(),
        parse_all(m.take(j)) == Err::<Seq<(Seq<char>, Seq<ParamVal>)>, _>(e),
    ensures
        parse_all(m) == Err::<Seq<(Seq<char>, Seq<ParamVal>)>, _>(e),
    decreases m.len() - j,
{
    if j < m.len() {
        assert(m.take(j + 1).drop_last() =~= m.take(j));
        lemma_parse_all_error_persists(m, j + 1, e);
    } else {
        assert(m.take(j) =~= m);
    }
}

/// A copy of a combination with one binding put in front.
fn prepend_binding(name: &String, v: &ParameterValue, c: &Bindings) -> (r: Bindings)
    requires
        v.well_formed(),
        bindings_well_formed(c@),
    ensures
        bindings_view(r@) == seq![(name@, v@)] + bindings_view(c@),
        bindings_well_formed(r@),
{
    let mut r: Bindings = Vec::new();
    r.push((name.clone(), v.copy()));
    let mut i: usize = 0;
    while i < c.len()
        invariant
            i <= c.len(),
            bindings_well_formed(c@),
            bindings_well_formed(r@),
            bindings_view(r@) == seq![(name@, v@)] + bindings_view(c@).take(i as int),
        decreases c.len() - i,
    {
        let ghost prev = r@;
        let item = (c[i].0.clone(), c[i].1.copy());
        r.push(item);
        proof {
            assert(bindings_view(r@) =~= bindings_view(prev).push(
                (c@[i as int].0@, c@[i as int].1@),
            ));
            assert(bindings_view(c@).take(i + 1) =~= bindings_view(c@).take(i as int).push(
                bindings_view(c@)[i as int],
            ));
        }
        i = i + 1;
    }
    proof {
        assert(bindings_view(c@).take(c.len() as int) =~= bindings_view(c@));
    }
    r
}

/// Every combination of `ps[i..]`.
fn product_from(ps: &ParameterValues, i: usize) -> (r: Vec<Bindings>)
    requires
        i <= ps.len(),
        values_map_well_formed(ps@),
    ensures
        combos_view(r@) == product(values_map_view(ps@).skip(i as int)),
        combos_well_formed(r@),
    decreases ps.len() - i,
{
    let ghost psv = values_map_view(ps@).skip(i as int);
    if i == ps.len() {
        let mut r: Vec<Bindings> = Vec::new();
        r.push(Vec::new());
        proof {
            assert(psv.len() == 0);
            assert(bindings_view(r@[0]@) =~= Seq::<(Seq<char>, ParamVal)>::empty());
            assert(combos_view(r@) =~= seq![Seq::<(Seq<char>, ParamVal)>::empty()]);
        }
        return r;
    }
    let rest = product_from(ps, i + 1);
    proof {
        assert(psv.drop_first() =~= values_map_view(ps@).skip(i + 1));
        assert(psv[0] == (ps@[i as int].0@, values_view(ps@[i as int].1@)));
    }
    let name = &ps[i].0;
    let vals = &ps[i].1;
    let ghost restv = combos_view(rest@);
    let ghost vv = values_view(vals@);
    proof {
        assert(all_well_formed(vals@));
    }
    let mut out: Vec<Bindings> = Vec::new();
    let mut j: usize = 0;
    while j < vals.len()
        invariant
            j <= vals.len(),
            all_well_formed(vals@),
            combos_well_formed(rest@),
            combos_well_formed(out@),
            restv == combos_view(rest@),
            vv == values_view(vals@),
            combos_view(out@) == prod_outer(name@, vv, restv, j as int),
        decreases vals.len() - j,
    {
        let ghost start = combos_view(out@);
        let mut l: usize = 0;
        while l < rest.len()
            invariant
                j < vals.len(),
                l <= rest.len(),
                all_well_formed(vals@),
                combos_well_formed(rest@),
                combos_well_formed(out@),
                restv == combos_view(rest@),
                vv == values_view(vals@),
                combos_view(out@) == start + restv.take(l as int).map_values(
                    |c: Seq<(Seq<char>, ParamVal)>| seq![(name@, vv[j as int])] + c,
                ),
            decreases rest.len() - l,
        {
            proof {
                assert(vals@[j as int].well_formed());
                assert(bindings_well_formed(rest@[l as int]@));
            }
            let c = prepend_binding(name, &vals[j], &rest[l]);
            let ghost prev = out@;
            out.push(c);
            proof {
                assert(combos_view(out@) =~= combos_view(prev).push(bindings_view(c@)));
                assert(restv.take(l + 1) =~= restv.take(l as int).push(restv[l as int]));
                assert(restv.take(l + 1).map_values(
                    |c: Seq<(Seq<char>, ParamVal)>| seq![(name@, vv[j as int])] + c,
                ) =~= restv.take(l as int).map_values(
                    |c: Seq<(Seq<char>, ParamVal)>| seq![(name@, vv[j as int])] + c,
                ).push(seq![(name@, vv[j as int])] + restv[l as int]));
                assert(combos_view(out@) =~= start + restv.take(l + 1).map_values(
                    |c: Seq<(Seq<char>, ParamVal)>| seq![(name@, vv[j as int])] + c,
                ));
            }
            l = l + 1;
        }
        proof {
            assert(restv.take(rest.len() as int) =~= restv);
        }
        j = j + 1;
    }
    out
}

/// Every combination of the parameters' values.
pub fn cartesian_product(ps: &ParameterValues) -> (r: Vec<Bindings>)
    requires
        values_map_well_formed(ps@),
    ensures
        combos_view(r@) == product(values_map_view(ps@)),
        combos_well_formed(r@),
{
    proof {
        assert(values_map_view(ps@).skip(0) =~= values_map_view(ps@));
    }
    product_from(ps, 0)
}

/// The k-th values of all parameters together, or an error when the
/// parameters have different numbers of values.
pub fn zip_parameters(ps: &ParameterValues) -> (r: Result<Vec<Bindings>, String>)
    requires
        values_map_well_formed(ps@),
    ensures
        match r {
            Ok(cs) => zip(values_map_view(ps@)) == Some(combos_view(cs@)) && combos_well_formed(
                cs@,
            ),
            Err(e) => zip(values_map_view(ps@)) is None && e@ == zip_mismatch_message(),
        },
{
    let ghost psv = values_map_view(ps@);
    if ps.len() == 0 {
        let mut r: Vec<Bindings> = Vec::new();
        r.push(Vec::new());
        proof {
            assert(bindings_view(r@[0]@) =~= Seq::<(Seq<char>, ParamVal)>::empty());
            assert(combos_view(r@) =~= seq![Seq::<(Seq<char>, ParamVal)>::empty()]);
        }
        return Ok(r);
    }
    let n = ps[0].1.len();
    let mut j: usize = 0;
    while j < ps.len()
        invariant
            j <= ps.len(),
            n == ps@[0].1.len(),
            psv == values_map_view(ps@),
            forall|t: int| 0 <= t < j ==> (#[trigger] psv[t]).1.len() == n,
        decreases ps.len() - j,
    {
        if ps[j].1.len() != n {
            proof {
                assert(psv[j as int].1.len() != psv[0].1.len());
            }
            return Err(lit("All parameters must have the same number of values in zip mode"));
        }
        j = j + 1;
    }
    let mut out: Vec<Bindings> = Vec::new();
    let mut k: usize = 0;
    while k < n
        invariant
            k <= n,
            n == ps@[0].1.len(),
            ps.len() > 0,
            psv == values_map_view(ps@),
            values_map_well_formed(ps@),
            forall|t: int| 0 <= t < ps.len() ==> (#[trigger] psv[t]).1.len() == n,
            out@.len() == k,
            combos_well_formed(out@),
            forall|q: int|
                0 <= q < k ==> bindings_view((#[trigger] out@[q])@) == Seq::new(
                    ps.len() as nat,
                    |t: int| (psv[t].0, psv[t].1[q]),
                ),
        decreases n - k,
    {
        let mut c: Bindings = Vec::new();
        let mut t: usize = 0;
        while t < ps.len()
            invariant
                t <= ps.len(),
                k < n,
                psv == values_map_view(ps@),
                values_map_well_formed(ps@),
                forall|t: int| 0 <= t < ps.len() ==> (#[trigger] psv[t]).1.len() == n,
                bindings_well_formed(c@),
                bindings_view(c@) == Seq::new(t as nat, |u: int| (psv[u].0, psv[u].1[k as int])),
            decreases ps.len() - t,
        {
            proof {
                assert(psv[t as int].1.len() == n);
                assert(all_well_formed(ps@[t as int].1@));
                assert(ps@[t as int].1@[k as int].well_formed());
            }
            let ghost prev = c@;
            let v = ps[t].1[k].copy();
            let nm = ps[t].0.clone();
            c.push((nm, v));
            proof {
                assert(psv[t as int].1[k as int] == ps@[t as int].1@[k as int]@);
                assert(psv[t as int].0 == ps@[t as int].0@);
                assert(c@ =~= prev.push((nm, v)));
                assert(bindings_view(c@) =~= bindings_view(prev).push((nm@, v@)));
                assert(bindings_view(c@) =~= Seq::new(
                    (t + 1) as nat,
                    |u: int| (psv[u].0, psv[u].1[k as int]),
                ));
            }
            t = t + 1;
        }
        out.push(c);
        k = k + 1;
    }
    proof {
        assert(forall|t: int| 0 <= t < psv.len() ==> #[trigger] psv[t].1.len() == psv[0].1.len());
        assert(combos_view(out@) =~= Seq::new(
            psv[0].1.len(),
            |k: int| Seq::new(psv.len(), |j: int| (psv[j].0, psv[j].1[k])),
        ));
    }
    Ok(out)
}

/// Whether a mode names `zip`.
pub fn mode_is_zip(mode: &Option<String>) -> (b: bool)
    ensures
        b == is_zip_mode(
            match mode {
                Some(m) => Some(m@),
                None => None,
            },
        ),
{
    match mode {
        None => false,
        Some(m) => {
            let v = chars_of(m.as_str());
            let z = chars_of("zip");
            chars_eq(&v, &z)
        },
    }
}

pub open spec fn opt_view(o: Option<String>) -> Option<Seq<char>> {
    match o {
        Some(s) => Some(s@),
        None => None,
    }
}

/// The combinations of a parameter map: `zip` mode pairs values up, any other
/// mode (or none) takes the Cartesian product.
pub fn combine_parameters(m: &ParameterMap, mode: &Option<String>) -> (r: Result<
    Vec<Bindings>,
    String,
>)
    ensures
        match r {
            Ok(cs) => combinations(map_view(m@), opt_view(*mode)) == Ok::<_, Seq<char>>(
                combos_view(cs@),
            ) && combos_well_formed(cs@),
            Err(e) => combinations(map_view(m@), opt_view(*mode)) == Err::<Seq<Combo>, _>(e@),
        },
{
    let ps = match parse_parameter_map(m) {
        Err(e) => {
            return Err(e);
        },
        Ok(ps) => ps,
    };
    if mode_is_zip(mode) {
        zip_parameters(&ps)
    } else {
        Ok(cartesian_product(&ps))
    }
}

} // verus!
