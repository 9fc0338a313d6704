//! How this system names the resources it creates and the environment it
//! hands to a container.

use vstd::prelude::*;
use vstd::string::StringExecFns;

verus! {

/// Prefix of every container and volume name this system creates.
pub const RESOURCE_PREFIX: &'static str = "db-mgr__";

/// Separator between the container part and the volume part of a volume name.
pub const NAME_SEPARATOR: &'static str = "__";

/// Key of the label that marks every resource this system creates.
pub const MANAGEMENT_LABEL: &'static str = "db-mgr-resource";

/// Value of the management label on containers.
pub const CONTAINER_LABEL_VALUE: &'static str = "container";

/// Value of the management label on volumes.
pub const VOLUME_LABEL_VALUE: &'static str = "volume";

/// Tag used when none is chosen.
pub const DEFAULT_TAG: &'static str = "latest";

/// The contents of a list of string pairs.
pub open spec fn pairs_view(v: Seq<(String, String)>) -> Seq<(Seq<char>, Seq<char>)> {
    v.map_values(|p: (String, String)| (p.0@, p.1@))
}

/// The contents of a list of strings.
pub open spec fn strings_view(v: Seq<String>) -> Seq<Seq<char>> {
    v.map_values(|s: String| s@)
}

/// The characters that count as whitespace in a name: those with the
/// Unicode White_Space property.
pub open spec fn is_blank(c: char) -> bool {
    let u = c as u32;
    (0x09 <= u && u <= 0x0D) || u == 0x20 || u == 0x85 || u == 0xA0 || u == 0x1680 || (0x2000 <= u
        && u <= 0x200A) || u == 0x2028 || u == 0x2029 || u == 0x202F || u == 0x205F || u == 0x3000
}

/// A name with each whitespace character replaced by `-`.
pub open spec fn sanitized(name: Seq<char>) -> Seq<char> {
    name.map_values(|c: char| if is_blank(c) { '-' } else { c })
}

/// The environment string `NAME="VALUE"`.
pub open spec fn env_entry(name: Seq<char>, value: Seq<char>) -> Seq<char> {
    name + "=\""@ + value + "\""@
}

/// The variables whose value is not empty, in their order.
pub open spec fn kept_variables(vars: Seq<(Seq<char>, Seq<char>)>) -> Seq<(Seq<char>, Seq<char>)>
    decreases vars.len(),
{
    if vars.len() == 0 {
        seq![]
    } else {
        let rest = kept_variables(vars.drop_last());
        if vars.last().1.len() == 0 {
            rest
        } else {
            rest.push(vars.last())
        }
    }
}

/// The environment strings of the variables whose value is not empty.
pub open spec fn env_strings(vars: Seq<(Seq<char>, Seq<char>)>) -> Seq<Seq<char>> {
    kept_variables(vars).map_values(|p: (Seq<char>, Seq<char>)| env_entry(p.0, p.1))
}

/// Each volume name namespaced with the container name, its mount path kept.
pub open spec fn namespaced_volumes(
    container: Seq<char>,
    volumes: Seq<(Seq<char>, Seq<char>)>,
) -> Seq<(Seq<char>, Seq<char>)> {
    volumes.map_values(
        |p: (Seq<char>, Seq<char>)| (namespaced_volume(container, p.0), p.1),
    )
}

/// The tag to pull: the chosen one, or the default when none was chosen.
pub open spec fn resolved_tag(tag: Seq<char>) -> Seq<char> {
    if tag.len() == 0 {
        DEFAULT_TAG@
    } else {
        tag
    }
}

/// The image reference `image:tag`.
pub open spec fn image_reference(image: Seq<char>, tag: Seq<char>) -> Seq<char> {
    image + ":"@ + tag
}

/// The kept variables are exactly those of `vars` with a non-empty value.
pub proof fn lemma_kept_variables(vars: Seq<(Seq<char>, Seq<char>)>)
    ensures
        forall|i: int|
            0 <= i < vars.len() && vars[i].1.len() > 0 ==> kept_variables(vars).contains(
                #[trigger] vars[i],
            ),
        forall|j: int|
            0 <= j < kept_variables(vars).len() ==> {
                &&& (#[trigger] kept_variables(vars)[j]).1.len() > 0
                &&& vars.contains(kept_variables(vars)[j])
            },
    decreases vars.len(),
{
    if vars.len() > 0 {
        let init = vars.drop_last();
        lemma_kept_variables(init);
        let k = kept_variables(vars);
        let ki = kept_variables(init);
        assert forall|i: int| 0 <= i < vars.len() && vars[i].1.len() > 0 implies k.contains(
            #[trigger] vars[i],
        ) by {
            if i < vars.len() - 1 {
                assert(init[i] == vars[i]);
                let w = choose|w: int| 0 <= w < ki.len() && ki[w] == init[i];
                if vars.last().1.len() > 0 {
                    assert(k[w] == ki[w]);
                }
            } else {
                assert(k[k.len() - 1] == vars[i]);
            }
        }
        assert forall|j: int| 0 <= j < k.len() implies {
            &&& (#[trigger] k[j]).1.len() > 0
            &&& vars.contains(k[j])
        } by {
            if j < ki.len() {
                assert(k[j] == ki[j]);
                let w = choose|w: int| 0 <= w < init.len() && init[w] == ki[j];
                assert(vars[w] == init[w]);
            } else {
                assert(k[j] == vars.last());
                assert(vars[vars.len() - 1] == vars.last());
            }
        }
    }
}

/// No two pairs share a key.
pub open spec fn keys_unique(v: Seq<(Seq<char>, Seq<char>)>) -> bool {
    forall|i: int, j: int| 0 <= i < j < v.len() ==> v[i].0 != v[j].0
}

/// Dropping the variables with an empty value keeps the names unique.
pub proof fn lemma_kept_variables_keep_keys_unique(vars: Seq<(Seq<char>, Seq<char>)>)
    requires
        keys_unique(vars),
    ensures
        keys_unique(kept_variables(vars)),
    decreases vars.len(),
{
    if vars.len() > 0 {
        let init = vars.drop_last();
        lemma_kept_variables_keep_keys_unique(init);
        lemma_kept_variables(init);
        let ki = kept_variables(init);
        if vars.last().1.len() > 0 {
            assert forall|i: int| 0 <= i < ki.len() implies ki[i].0 != vars.last().0 by {
                let w = choose|w: int| 0 <= w < init.len() && init[w] == ki[i];
                assert(vars[w] == init[w]);
            }
        }
    }
}

/// Namespacing volume names with one container name keeps them unique.
pub proof fn lemma_namespaced_volumes_keep_keys_unique(
    container: Seq<char>,
    volumes: Seq<(Seq<char>, Seq<char>)>,
)
    requires
        keys_unique(volumes),
    ensures
        keys_unique(namespaced_volumes(container, volumes)),
{
    let n = namespaced_volumes(container, volumes);
    assert forall|i: int, j: int| 0 <= i < j < n.len() implies n[i].0 != n[j].0 by {
        let a = namespaced_volume(container, volumes[i].0);
        let b = namespaced_volume(container, volumes[j].0);
        let start = (RESOURCE_PREFIX@.len() + container.len() + NAME_SEPARATOR@.len()) as int;
        assert(a.subrange(start, a.len() as int) =~= volumes[i].0);
        assert(b.subrange(start, b.len() as int) =~= volumes[j].0);
    }
}

/// The variables with `key` set to `value`: in place where it is present,
/// appended where it is not.
pub open spec fn with_variable(
    vars: Seq<(Seq<char>, Seq<char>)>,
    key: Seq<char>,
    value: Seq<char>,
) -> Seq<(Seq<char>, Seq<char>)> {
    if exists|i: int| 0 <= i < vars.len() && vars[i].0 == key {
        vars.map_values(
            |p: (Seq<char>, Seq<char>)|
                if p.0 == key {
                    (key, value)
                } else {
                    p
                },
        )
    } else {
        vars.push((key, value))
    }
}

/// Setting a key keeps the keys unique.
pub proof fn lemma_with_variable_keeps_keys_unique(
    vars: Seq<(Seq<char>, Seq<char>)>,
    key: Seq<char>,
    value: Seq<char>,
)
    requires
        keys_unique(vars),
    ensures
        keys_unique(with_variable(vars, key, value)),
{
    if !exists|i: int| 0 <= i < vars.len() && vars[i].0 == key {
        let r = with_variable(vars, key, value);
        assert forall|i: int, j: int| 0 <= i < j < r.len() implies r[i].0 != r[j].0 by {
            if j == vars.len() {
                assert(r[i] == vars[i]);
            }
        }
    }
}

/// Environment filtering: every variable with a non-empty value appears in
/// the environment as `NAME="VALUE"`, and every environment string is that
/// of a variable with a non-empty value.
pub proof fn lemma_env_filtering(vars: Seq<(Seq<char>, Seq<char>)>)
    ensures
        forall|i: int|
            0 <= i < vars.len() && vars[i].1.len() > 0 ==> env_strings(vars).contains(
                env_entry(#[trigger] vars[i].0, vars[i].1),
            ),
        forall|j: int|
            0 <= j < env_strings(vars).len() ==> exists|i: int|
                0 <= i < vars.len() && vars[i].1.len() > 0 && #[trigger] env_strings(vars)[j]
                    == env_entry(vars[i].0, vars[i].1),
{
    lemma_kept_variables(vars);
    let k = kept_variables(vars);
    let e = env_strings(vars);
    assert forall|i: int| 0 <= i < vars.len() && vars[i].1.len() > 0 implies e.contains(
        env_entry(#[trigger] vars[i].0, vars[i].1),
    ) by {
        assert(k.contains(vars[i]));
        let w = choose|w: int| 0 <= w < k.len() && k[w] == vars[i];
        assert(e[w] == env_entry(vars[i].0, vars[i].1));
    }
    assert forall|j: int| 0 <= j < e.len() implies exists|i: int|
        0 <= i < vars.len() && vars[i].1.len() > 0 && #[trigger] e[j] == env_entry(
            vars[i].0,
            vars[i].1,
        ) by {
        assert(k[j].1.len() > 0 && vars.contains(k[j]));
        let w = choose|w: int| 0 <= w < vars.len() && vars[w] == k[j];
        assert(e[j] == env_entry(vars[w].0, vars[w].1));
    }
}

/// Volume naming is a fixed scheme: the same container and volume names
/// always give the same volume name, `db-mgr__<container>__<volume>`.
pub proof fn lemma_volume_name_repeatable(
    container: Seq<char>,
    volume: Seq<char>,
    container2: Seq<char>,
    volume2: Seq<char>,
)
    requires
        container == container2,
        volume == volume2,
    ensures
        namespaced_volume(container, volume) == namespaced_volume(container2, volume2),
        namespaced_volume(container, volume) == RESOURCE_PREFIX@ + container + NAME_SEPARATOR@
            + volume,
{
}

/// The namespaced name of volume `volume` of container `container`.
pub open spec fn namespaced_volume(container: Seq<char>, volume: Seq<char>) -> Seq<char> {
    RESOURCE_PREFIX@ + container + NAME_SEPARATOR@ + volume
}

/// The runtime name of a container that the user named `name`.
pub open spec fn managed_container_name(name: Seq<char>) -> Seq<char> {
    RESOURCE_PREFIX@ + name
}

/// The name of volume `volume` belonging to the container the user named `container`.
pub fn volume_name(container: &str, volume: &str) -> (r: String)
    ensures
        r@ == namespaced_volume(container@, volume@),
{
    let mut r = String::from_str(RESOURCE_PREFIX);
    r.append(container);
    r.append(NAME_SEPARATOR);
    r.append(volume);
    r
}

/// The runtime name of a container that the user named `name`.
pub fn container_name(name: &str) -> (r: String)
    ensures
        r@ == managed_container_name(name@),
{
    let mut r = String::from_str(RESOURCE_PREFIX);
    r.append(name);
    r
}

/// The label filter `KEY=VALUE` that selects the managed containers.
pub fn container_label_filter() -> (r: String)
    ensures
        r@ == MANAGEMENT_LABEL@ + "="@ + CONTAINER_LABEL_VALUE@,
{
    let mut r = String::from_str(MANAGEMENT_LABEL);
    r.append("=");
    r.append(CONTAINER_LABEL_VALUE);
    r
}

/// `name` with each whitespace character replaced by `-`.
pub fn sanitize_name(name: &str) -> (r: String)
    ensures
        r@ == sanitized(name@),
{
    let n = name.unicode_len();
    let mut r = String::new();
    let mut i: usize = 0;
    while i < n
        invariant
            n == name@.len(),
            i <= n,
            r@ == sanitized(name@.subrange(0, i as int)),
        decreases n - i,
    {
        let c = name.get_char(i);
        let u = c as u32;
        if (0x09 <= u && u <= 0x0D) || u == 0x20 || u == 0x85 || u == 0xA0 || u == 0x1680 || (0x2000
            <= u && u <= 0x200A) || u == 0x2028 || u == 0x2029 || u == 0x202F || u == 0x205F || u
            == 0x3000 {
            r.append("-");
        } else {
            r.append(name.substring_char(i, i + 1));
        }
        proof {
            reveal_strlit("-");
            assert(sanitized(name@.subrange(0, i + 1)) =~= sanitized(name@.subrange(0, i as int))
                + seq![if is_blank(c) { '-' } else { c }]);
        }
        i = i + 1;
    }
    proof {
        assert(name@.subrange(0, n as int) =~= name@);
    }
    r
}

/// The environment string `NAME="VALUE"`.
pub fn env_string(name: &str, value: &str) -> (r: String)
    ensures
        r@ == env_entry(name@, value@),
{
    let mut r = String::from_str(name);
    r.append("=\"");
    r.append(value);
    r.append("\"");
    r
}

/// The environment strings, `NAME="VALUE"`, of the variables whose value is
/// not empty, in their order.
pub fn effective_env(vars: &Vec<(String, String)>) -> (r: Vec<String>)
    ensures
        strings_view(r@) == env_strings(pairs_view(vars@)),
{
    let mut r: Vec<String> = Vec::new();
    let mut i: usize = 0;
    while i < vars.len()
        invariant
            i <= vars.len(),
            strings_view(r@) == env_strings(pairs_view(vars@.subrange(0, i as int))),
        decreases vars.len() - i,
    {
        let ghost before = pairs_view(vars@.subrange(0, i as int));
        let ghost after = pairs_view(vars@.subrange(0, i + 1));
        proof {
            assert(after.drop_last() =~= before);
            assert(after.last() == (vars@[i as int].0@, vars@[i as int].1@));
        }
        let ghost r_before = r@;
        if !vars[i].1.as_str().is_empty() {
            let e = env_string(vars[i].0.as_str(), vars[i].1.as_str());
            r.push(e);
            proof {
                assert(strings_view(r@) =~= strings_view(r_before).push(e@));
            }
        }
        proof {
            if vars@[i as int].1@.len() == 0 {
                assert(kept_variables(after) == kept_variables(before));
            } else {
                assert(kept_variables(after) == kept_variables(before).push(after.last()));
                assert(env_strings(after) =~= env_strings(before).push(
                    env_entry(after.last().0, after.last().1),
                ));
            }
            assert(strings_view(r@) =~= env_strings(after));
        }
        i = i + 1;
    }
    proof {
        assert(vars@.subrange(0, vars@.len() as int) =~= vars@);
    }
    r
}

/// A copy of a list of string pairs.
pub fn copy_pairs(v: &Vec<(String, String)>) -> (r: Vec<(String, String)>)
    ensures
        pairs_view(r@) == pairs_view(v@),
{
    let mut r: Vec<(String, String)> = Vec::new();
    let mut i: usize = 0;
    while i < v.len()
        invariant
            i <= v.len(),
            pairs_view(r@) =~= pairs_view(v@.subrange(0, i as int)),
        decreases v.len() - i,
    {
        let ghost r_before = r@;
        r.push((v[i].0.clone(), v[i].1.clone()));
        proof {
            assert(pairs_view(r@) =~= pairs_view(r_before).push((v@[i as int].0@, v@[i as int].1@)));
            assert(pairs_view(v@.subrange(0, i + 1)) =~= pairs_view(v@.subrange(0, i as int)).push(
                (v@[i as int].0@, v@[i as int].1@),
            ));
        }
        i = i + 1;
    }
    proof {
        assert(v@.subrange(0, v@.len() as int) =~= v@);
    }
    r
}

/// The variables whose value is not empty, in their order.
pub fn drop_empty_variables(vars: &Vec<(String, String)>) -> (r: Vec<(String, String)>)
    ensures
        pairs_view(r@) == kept_variables(pairs_view(vars@)),
{
    let mut r: Vec<(String, String)> = Vec::new();
    let mut i: usize = 0;
    while i < vars.len()
        invariant
            i <= vars.len(),
            pairs_view(r@) == kept_variables(pairs_view(vars@.subrange(0, i as int))),
        decreases vars.len() - i,
    {
        let ghost before = pairs_view(vars@.subrange(0, i as int));
        let ghost after = pairs_view(vars@.subrange(0, i + 1));
        proof {
            assert(after.drop_last() =~= before);
            assert(after.last() == (vars@[i as int].0@, vars@[i as int].1@));
        }
        let ghost r_before = r@;
        if !vars[i].1.as_str().is_empty() {
            r.push((vars[i].0.clone(), vars[i].1.clone()));
            proof {
                assert(pairs_view(r@) =~= pairs_view(r_before).push(after.last()));
            }
        }
        i = i + 1;
    }
    proof {
        assert(vars@.subrange(0, vars@.len() as int) =~= vars@);
    }
    r
}

/// Each volume name namespaced with the container name, its mount path kept.
pub fn namespace_volumes(container: &str, volumes: &Vec<(String, String)>) -> (r: Vec<
    (String, String),
>)
    ensures
        pairs_view(r@) == namespaced_volumes(container@, pairs_view(volumes@)),
{
    let mut r: Vec<(String, String)> = Vec::new();
    let mut i: usize = 0;
    while i < volumes.len()
        invariant
            i <= volumes.len(),
            pairs_view(r@) =~= namespaced_volumes(
                container@,
                pairs_view(volumes@.subrange(0, i as int)),
            ),
        decreases volumes.len() - i,
    {
        let name = volume_name(container, volumes[i].0.as_str());
        let ghost r_before = r@;
        let ghost entry = (volumes@[i as int].0@, volumes@[i as int].1@);
        r.push((name, volumes[i].1.clone()));
        proof {
            assert(pairs_view(r@) =~= pairs_view(r_before).push(
                (namespaced_volume(container@, entry.0), entry.1),
            ));
            assert(pairs_view(volumes@.subrange(0, i + 1)) =~= pairs_view(
                volumes@.subrange(0, i as int),
            ).push(entry));
        }
        i = i + 1;
    }
    proof {
        assert(volumes@.subrange(0, volumes@.len() as int) =~= volumes@);
    }
    r
}

/// The tag to pull: `tag`, or the default when it is empty.
pub fn resolve_tag(tag: &str) -> (r: String)
    ensures
        r@ == resolved_tag(tag@),
{
    if tag.is_empty() {
        String::from_str(DEFAULT_TAG)
    } else {
        String::from_str(tag)
    }
}

/// The image reference `image:tag`.
pub fn image_ref(image: &str, tag: &str) -> (r: String)
    ensures
        r@ == image_reference(image@, tag@),
{
    let mut r = String::from_str(image);
    r.append(":");
    r.append(tag);
    r
}

/// The variables with `key` set to `value`: in place where it is present,
/// appended where it is not.
pub fn set_variable(vars: &Vec<(String, String)>, key: &String, value: &String) -> (r: Vec<
    (String, String),
>)
    ensures
        pairs_view(r@) == with_variable(pairs_view(vars@), key@, value@),
{
    let ghost old_view = pairs_view(vars@);
    let ghost f = |p: (Seq<char>, Seq<char>)|
        if p.0 == key@ {
            (key@, value@)
        } else {
            p
        };
    let mut r: Vec<(String, String)> = Vec::new();
    let mut found = false;
    let mut i: usize = 0;
    while i < vars.len()
        invariant
            i <= vars.len(),
            old_view == pairs_view(vars@),
            f == (|p: (Seq<char>, Seq<char>)|
                if p.0 == key@ {
                    (key@, value@)
                } else {
                    p
                }),
            pairs_view(r@) =~= old_view.subrange(0, i as int).map_values(f),
            found == exists|j: int| 0 <= j < i && old_view[j].0 == key@,
        decreases vars.len() - i,
    {
        let ghost r_before = r@;
        if vars[i].0 == *key {
            r.push((key.clone(), value.clone()));
            found = true;
        } else {
            r.push((vars[i].0.clone(), vars[i].1.clone()));
        }
        proof {
            assert(old_view.subrange(0, i + 1) =~= old_view.subrange(0, i as int).push(old_view[i as int]));
            assert(pairs_view(r@) =~= pairs_view(r_before).push(f(old_view[i as int])));
            assert(old_view.subrange(0, i + 1).map_values(f) =~= old_view.subrange(0, i as int).map_values(
                f,
            ).push(f(old_view[i as int])));
        }
        i = i + 1;
    }
    proof {
        assert(old_view.subrange(0, old_view.len() as int) =~= old_view);
    }
    if !found {
        let ghost r_before = r@;
        r.push((key.clone(), value.clone()));
        proof {
            assert(pairs_view(r@) =~= pairs_view(r_before).push((key@, value@)));
            assert(old_view.map_values(f) =~= old_view);
        }
    }
    r
}

/// The management label with value `value`, as a label list.
pub open spec fn management_label(value: Seq<char>) -> Seq<(Seq<char>, Seq<char>)> {
    seq![(MANAGEMENT_LABEL@, value)]
}

/// The management label with value `value`, as a label list.
pub fn management_labels(value: &str) -> (r: Vec<(String, String)>)
    ensures
        pairs_view(r@) == management_label(value@),
{
    let mut r: Vec<(String, String)> = Vec::new();
    r.push((String::from_str(MANAGEMENT_LABEL), String::from_str(value)));
    proof {
        assert(pairs_view(r@) =~= management_label(value@));
    }
    r
}

} // verus!
