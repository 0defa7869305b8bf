//! Static description of a metric: where it is sent, how long it lives,
//! and the identifier under which it is stored.

use vstd::prelude::*;
use crate::lifetime::Lifetime;

verus! {

/// The immutable declaration shared by every metric instance.
///
/// A metric is stored once per owning ping name, under the identifier
/// derived from its category, name and optional dynamic label.
#[derive(Debug)]
pub struct CommonMetricData {
    pub category: String,
    pub name: String,
    pub send_in_pings: Vec<String>,
    pub lifetime: Lifetime,
    pub disabled: bool,
    pub dynamic_label: Option<String>,
}

/// Mathematical model of [`CommonMetricData`].
#[verifier::ext_equal]
pub struct MetricMeta {
    pub category: Seq<char>,
    pub name: Seq<char>,
    pub send_in_pings: Seq<Seq<char>>,
    pub lifetime: Lifetime,
    pub disabled: bool,
    pub dynamic_label: Option<Seq<char>>,
}

impl View for CommonMetricData {
    type V = MetricMeta;

    open spec fn view(&self) -> MetricMeta {
        MetricMeta {
            category: self.category@,
            name: self.name@,
            send_in_pings: self.send_in_pings.deep_view(),
            lifetime: self.lifetime,
            disabled: self.disabled,
            dynamic_label: match self.dynamic_label {
                Option::Some(l) => Option::Some(l@),
                Option::None => Option::None,
            },
        }
    }
}

/// Copies a list of names, preserving its model.
pub fn clone_string_vec(v: &Vec<String>) -> (r: Vec<String>)
    ensures
        r.deep_view() == v.deep_view(),
{
    let mut r: Vec<String> = Vec::new();
    let n = v.len();
    let mut i: usize = 0;
    while i < n
        invariant
            n == v.len(),
            i <= n,
            r.len() == i,
            forall|k: int| 0 <= k < i ==> r.deep_view()[k] == v.deep_view()[k],
        decreases n - i,
    {
        r.push(v[i].clone());
        i += 1;
    }
    proof {
        assert(r.deep_view() =~= v.deep_view());
    }
    r
}

impl Clone for CommonMetricData {
    fn clone(&self) -> (r: Self)
        ensures
            r@ == self@,
    {
        CommonMetricData {
            category: self.category.clone(),
            name: self.name.clone(),
            send_in_pings: clone_string_vec(&self.send_in_pings),
            lifetime: self.lifetime,
            disabled: self.disabled,
            dynamic_label: match &self.dynamic_label {
                Option::Some(l) => Option::Some(l.clone()),
                Option::None => Option::None,
            },
        }
    }
}

/// A declaration is usable when it owns at least one ping name, no ping
/// name is listed twice, and its identifier stays out of the reserved
/// internal namespace under which error counters are synthesized.
pub open spec fn meta_well_formed(m: MetricMeta) -> bool {
    &&& m.send_in_pings.len() >= 1
    &&& forall|i: int, j: int|
        0 <= i < j < m.send_in_pings.len() ==> m.send_in_pings[i] != m.send_in_pings[j]
    &&& !crate::ping::is_internal_id(identifier_of(m))
}

/// The storage identifier without any dynamic label.
pub open spec fn base_identifier_of(m: MetricMeta) -> Seq<char> {
    if m.category.len() == 0 {
        m.name
    } else {
        m.category + "."@ + m.name
    }
}

/// The full storage identifier: the base identifier, then `/label` when a
/// dynamic label is present.
pub open spec fn identifier_of(m: MetricMeta) -> Seq<char> {
    match m.dynamic_label {
        Option::Some(l) => base_identifier_of(m) + "/"@ + l,
        Option::None => base_identifier_of(m),
    }
}

impl CommonMetricData {
    /// Whether this declaration is usable (see [`meta_well_formed`]).
    pub fn validate(&self) -> (r: bool)
        ensures
            r == meta_well_formed(self@),
    {
        if self.send_in_pings.len() == 0 {
            return false;
        }
        let id = self.identifier();
        if crate::ping::id_is_internal(&id) {
            return false;
        }
        let n = self.send_in_pings.len();
        let mut i: usize = 0;
        while i < n
            invariant
                n == self.send_in_pings.len(),
                i <= n,
                forall|a: int, b: int|
                    0 <= a < b < n && a < i ==> self@.send_in_pings[a] != self@.send_in_pings[b],
            decreases n - i,
        {
            let mut j: usize = i + 1;
            while j < n
                invariant
                    n == self.send_in_pings.len(),
                    i < j <= n,
                    forall|b: int| i < b < j ==> self@.send_in_pings[i as int] != self@.send_in_pings[b],
                decreases n - j,
            {
                if self.send_in_pings[i] == self.send_in_pings[j] {
                    proof {
                        assert(self@.send_in_pings[i as int] == self.send_in_pings@[i as int]@);
                        assert(self@.send_in_pings[j as int] == self.send_in_pings@[j as int]@);
                    }
                    return false;
                }
                j += 1;
            }
            i += 1;
        }
        true
    }

    /// The identifier without the dynamic label.
    pub fn base_identifier(&self) -> (r: String)
        ensures
            r@ == base_identifier_of(self@),
    {
        if self.category.as_str().is_empty() {
            let r = self.name.clone();
            proof {
                assert(r@ == base_identifier_of(self@));
            }
            r
        } else {
            let mut r = self.category.clone();
            r.append(".");
            r.append(self.name.as_str());
            proof {
                assert(r@ == base_identifier_of(self@));
            }
            r
        }
    }

    /// The full storage identifier for this declaration.
    pub fn identifier(&self) -> (r: String)
        ensures
            r@ == identifier_of(self@),
    {
        let mut r = self.base_identifier();
        match &self.dynamic_label {
            Option::Some(l) => {
                r.append("/");
                r.append(l.as_str());
            },
            Option::None => {},
        }
        r
    }

    /// The first owning ping name: the default target of test queries.
    pub fn first_ping(&self) -> (r: String)
        requires
            meta_well_formed(self@),
        ensures
            r@ == self@.send_in_pings[0],
    {
        self.send_in_pings[0].clone()
    }
}

} // verus!
