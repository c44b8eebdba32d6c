//! Generation of per-runner cloud-init configs from a template with `${KEY}` placeholders.
use vstd::prelude::*;
pub mod substitution;

use substitution::{
    entries_map, free_of, lemma_substitution_is_simultaneous, placeholders_well_formed,
    plain_key, substitute_map, substitution_safe,
};

use crate::text::{
    concat3, decimal, decimal_string, join, join_strings, replace_all, replace_all_str,
    string_views,
};

verus! {

/// Renders a cloud-init template into a snippet file.
pub struct CloudConfigGenerator {
    template_path: String,
    output_path: String,
}

impl CloudConfigGenerator {
    /// The path of the template read.
    pub closed spec fn template(&self) -> Seq<char> {
        self.template_path@
    }

    /// The path of the snippet written.
    pub closed spec fn output(&self) -> Seq<char> {
        self.output_path@
    }

    /// A generator that reads `template_path` and writes `output_path`.
    pub fn new(template_path: String, output_path: String) -> (g: Self)
        ensures
            g.template() == template_path@,
            g.output() == output_path@,
    {
        Self { template_path, output_path }
    }

    /// The path of the template read.
    pub fn template_path(&self) -> (p: &String)
        ensures
            p@ == self.template(),
    {
        &self.template_path
    }

    /// The path of the snippet written.
    pub fn output_path(&self) -> (p: &String)
        ensures
            p@ == self.output(),
    {
        &self.output_path
    }

    /// The template with every `${KEY}` placeholder replaced by its parameter value,
    /// keys taken in the order of [`CloudConfigParams::into_map`]. When no value holds a `$`
    /// and the template's placeholders are well formed (other `$` text may stand anywhere
    /// but directly before a `${`), the result is the
    /// simultaneous substitution by the map of keys to values, so that order does not count.
    pub fn build(template: String, params: CloudConfigParams) -> (r: String)
        ensures
            r@ == substitute_all(template@, params_map(params)),
            values_free_of_dollar(params) && placeholders_well_formed(template@)
                ==> r@ == substitute_map(template@, entries_map(params_map(params))),
    {
        proof {
            if values_free_of_dollar(params) && placeholders_well_formed(template@) {
                lemma_params_substitution_safe(template@, params);
                lemma_substitution_is_simultaneous(template@, params_map(params));
            }
        }
        let entries = params.into_map();
        let mut generated = template;
        let n = entries.len();
        let mut i: usize = 0;
        while i < n
            invariant
                n == entries@.len(),
                i <= n,
                entry_views(entries@) == params_map(params),
                generated@ == substitute_all(template@, entry_views(entries@).take(i as int)),
            decreases n - i,
        {
            let (k, v) = &entries[i];
            let key = concat3("${", k.as_str(), "}");
            proof {
                assert(key@.len() > 0) by {
                    reveal_strlit("${");
                }
            }
            generated = replace_all_str(generated.as_str(), key.as_str(), v.as_str());
            proof {
                let views = entry_views(entries@);
                assert(views[i as int] == (k@, v@));
                assert(views.take(i + 1).drop_last() =~= views.take(i as int));
            }
            i = i + 1;
        }
        proof {
            assert(entry_views(entries@).take(n as int) =~= entry_views(entries@));
        }
        generated
    }
}

/// The placeholder text of a key: `${KEY}`.
pub open spec fn placeholder(key: Seq<char>) -> Seq<char> {
    "${"@ + key + "}"@
}

/// `template` after replacing, entry by entry in order, each placeholder by its value.
pub open spec fn substitute_all(template: Seq<char>, entries: Seq<(Seq<char>, Seq<char>)>) -> Seq<
    char,
>
    decreases entries.len(),
{
    if entries.len() == 0 {
        template
    } else {
        let last = entries.last();
        replace_all(substitute_all(template, entries.drop_last()), placeholder(last.0), last.1)
    }
}

/// Whether `pat` occurs in `s`.
pub open spec fn occurs_in(s: Seq<char>, pat: Seq<char>) -> bool {
    exists|i: int| 0 <= i && i + pat.len() <= s.len() && #[trigger] s.subrange(i, i + pat.len()) == pat
}

/// A text in which `pat` does not occur is left as it is.
pub proof fn lemma_replace_absent(s: Seq<char>, pat: Seq<char>, to: Seq<char>)
    requires
        !occurs_in(s, pat),
    ensures
        replace_all(s, pat, to) == s,
    decreases s.len(),
{
    if pat.len() > 0 && s.len() >= pat.len() {
        if s.subrange(0, pat.len() as int) == pat {
            assert(s.subrange(0int, 0int + pat.len()) == pat);
            assert(occurs_in(s, pat));
        }
        assert(!occurs_in(s.skip(1), pat)) by {
            if occurs_in(s.skip(1), pat) {
                let i = choose|i: int| 0 <= i && i + pat.len() <= s.skip(1).len() && #[trigger] s.skip(1).subrange(i, i + pat.len()) == pat;
                assert(s.subrange(i + 1, i + 1 + pat.len()) =~= s.skip(1).subrange(i, i + pat.len()));
            }
        }
        lemma_replace_absent(s.skip(1), pat, to);
        assert(seq![s[0]] + s.skip(1) =~= s);
    }
}

/// A template without any placeholder comes out of the generator unchanged.
pub proof fn lemma_template_without_placeholders(
    template: Seq<char>,
    entries: Seq<(Seq<char>, Seq<char>)>,
)
    requires
        forall|i: int| 0 <= i < entries.len() ==> !occurs_in(template, placeholder(#[trigger] entries[i].0)),
    ensures
        substitute_all(template, entries) == template,
    decreases entries.len(),
{
    if entries.len() > 0 {
        let init = entries.drop_last();
        assert forall|i: int| 0 <= i < init.len() implies !occurs_in(template, placeholder(#[trigger] init[i].0)) by {
            assert(init[i] == entries[i]);
        }
        lemma_template_without_placeholders(template, init);
        assert(entries.last() == entries[entries.len() - 1]);
        lemma_replace_absent(template, placeholder(entries.last().0), entries.last().1);
    }
}

/// The views of key/value entries.
pub open spec fn entry_views(entries: Seq<(String, String)>) -> Seq<(Seq<char>, Seq<char>)> {
    entries.map_values(|e: (String, String)| (e.0@, e.1@))
}

/// The parameters of one runner's cloud-init config.
pub struct CloudConfigParams {
    pub vmid: u16,
    pub repo: String,
    pub labels: Vec<String>,
    pub runner_token: String,
}

/// The placeholder keys and their values: `VMID`, `GH_REPO`, `LABELS` (comma-joined)
/// and `RUNNER_TOKEN`.
pub open spec fn params_map(p: CloudConfigParams) -> Seq<(Seq<char>, Seq<char>)> {
    seq![
        ("VMID"@, decimal(p.vmid as nat)),
        ("GH_REPO"@, p.repo@),
        ("LABELS"@, join(string_views(p.labels@), ","@)),
        ("RUNNER_TOKEN"@, p.runner_token@),
    ]
}

/// Whether no parameter value holds a `$`.
pub open spec fn values_free_of_dollar(p: CloudConfigParams) -> bool {
    &&& free_of(p.repo@, '$')
    &&& free_of(join(string_views(p.labels@), ","@), '$')
    &&& free_of(p.runner_token@, '$')
}

proof fn lemma_decimal_free_of_dollar(n: nat)
    ensures
        free_of(decimal(n), '$'),
    decreases n,
{
    if n >= 10 {
        lemma_decimal_free_of_dollar(n / 10);
        let d = decimal(n);
        assert forall|i: int| 0 <= i < d.len() implies d[i] != '$' by {
            if i < decimal(n / 10).len() {
                assert(d[i] == decimal(n / 10)[i]);
            }
        }
    }
}

proof fn lemma_params_substitution_safe(template: Seq<char>, p: CloudConfigParams)
    requires
        values_free_of_dollar(p),
        placeholders_well_formed(template),
    ensures
        substitution_safe(template, params_map(p)),
{
    reveal_strlit("VMID");
    reveal_strlit("GH_REPO");
    reveal_strlit("LABELS");
    reveal_strlit("RUNNER_TOKEN");
    lemma_decimal_free_of_dollar(p.vmid as nat);
    let e = params_map(p);
    assert(e[0].0 == "VMID"@ && e[1].0 == "GH_REPO"@ && e[2].0 == "LABELS"@ && e[3].0 == "RUNNER_TOKEN"@);
    assert forall|i: int| 0 <= i < e.len() implies plain_key(#[trigger] e[i].0) && free_of(e[i].1, '$') by {
        assert(i == 0 || i == 1 || i == 2 || i == 3);
    }
}

impl CloudConfigParams {
    /// The placeholder keys with their values.
    pub fn into_map(self) -> (r: Vec<(String, String)>)
        ensures
            entry_views(r@) == params_map(self),
    {
        let labels = join_strings(&self.labels, ",");
        let r = vec![
            (String::from_str("VMID"), decimal_string(self.vmid as u64)),
            (String::from_str("GH_REPO"), self.repo),
            (String::from_str("LABELS"), labels),
            (String::from_str("RUNNER_TOKEN"), self.runner_token),
        ];
        proof {
            assert(entry_views(r@) =~= params_map(self));
        }
        r
    }
}

} // verus!
