//! A deterministic, structured-document rendering of a job object.
//!
//! The layout is a fixed, human-readable YAML-style form of the model:
//! every present field renders on its own line with a fixed indent, maps
//! and lists render their items in storage order, and absent fields are
//! omitted. Rendering is a function of the object's content alone, which
//! is what makes repeated dry runs diff-friendly.
//!
//! Names and values are interpolated verbatim, without quoting or
//! escaping: the output is line-structured YAML only as long as they are
//! single-line text free of YAML punctuation, which holds of the names,
//! quantities and label values this pipeline carries. A value outside
//! that class is still rendered deterministically, just not as one
//! document line.

use vstd::prelude::*;
use vstd::string::StringExecFns;
use crate::kube::model::{
    Container, EnvVar, EnvVarSource, FieldSelector, Job, JobSpec, KeySelector, ObjectMeta,
    PodSpec, PodTemplateSpec, ResourceFieldSelector, ResourceRequirements,
};
use crate::strmap::StrMap;

verus! {

/// The decimal digit character for one digit value.
pub open spec fn dec_digit(d: int) -> char {
    if d == 0 {
        '0'
    } else if d == 1 {
        '1'
    } else if d == 2 {
        '2'
    } else if d == 3 {
        '3'
    } else if d == 4 {
        '4'
    } else if d == 5 {
        '5'
    } else if d == 6 {
        '6'
    } else if d == 7 {
        '7'
    } else if d == 8 {
        '8'
    } else {
        '9'
    }
}

/// The decimal digits of a non-negative number, most significant first.
pub open spec fn nat_dec(n: int) -> Seq<char>
    decreases n,
{
    if n < 10 {
        seq![dec_digit(n)]
    } else {
        nat_dec(n / 10).push(dec_digit(n % 10))
    }
}

/// The decimal rendering of an integer, with a leading minus sign when
/// negative.
pub open spec fn int_dec(n: int) -> Seq<char> {
    if n < 0 {
        seq!['-'] + nat_dec(-n)
    } else {
        nat_dec(n)
    }
}

/// One `prefix` line carrying a string value, or nothing when absent.
pub open spec fn opt_str_line(prefix: Seq<char>, v: Option<String>) -> Seq<char> {
    match v {
        None => Seq::empty(),
        Some(s) => prefix + s@ + "\n"@,
    }
}

/// One `prefix` line carrying an integer value, or nothing when absent.
pub open spec fn opt_int_line(prefix: Seq<char>, v: Option<i32>) -> Seq<char> {
    match v {
        None => Seq::empty(),
        Some(n) => prefix + int_dec(n as int) + "\n"@,
    }
}

/// One `prefix` line carrying a boolean value, or nothing when absent.
pub open spec fn opt_bool_line(prefix: Seq<char>, v: Option<bool>) -> Seq<char> {
    match v {
        None => Seq::empty(),
        Some(b) => if b {
            prefix + "true\n"@
        } else {
            prefix + "false\n"@
        },
    }
}

/// The item lines of a map, one `key: value` line per entry, in order.
pub open spec fn map_items(indent: Seq<char>, m: Seq<(String, String)>) -> Seq<char>
    decreases m.len(),
{
    if m.len() == 0 {
        Seq::empty()
    } else {
        map_items(indent, m.drop_last()) + indent + m.last().0@ + ": "@ + m.last().1@ + "\n"@
    }
}

/// A whole map under its header: `{}` inline when empty, else one item
/// line per entry.
pub open spec fn map_block(header: Seq<char>, indent: Seq<char>, m: Seq<(String, String)>) -> Seq<
    char,
> {
    if m.len() == 0 {
        header + " {}\n"@
    } else {
        header + "\n"@ + map_items(indent, m)
    }
}

/// The item lines of the field-ownership list.
pub open spec fn manager_items(prefix: Seq<char>, v: Seq<String>) -> Seq<char>
    decreases v.len(),
{
    if v.len() == 0 {
        Seq::empty()
    } else {
        manager_items(prefix, v.drop_last()) + prefix + v.last()@ + "\n"@
    }
}

/// The field-ownership list under its header: `[]` inline when empty.
pub open spec fn manager_block(header: Seq<char>, prefix: Seq<char>, v: Seq<String>) -> Seq<char> {
    if v.len() == 0 {
        header + " []\n"@
    } else {
        header + "\n"@ + manager_items(prefix, v)
    }
}

/// A metadata block's field lines at the given indent.
pub open spec fn meta_fields(indent: Seq<char>, m: ObjectMeta) -> Seq<char> {
    opt_str_line(indent + "name: "@, m.name) + (match m.labels {
        None => Seq::<char>::empty(),
        Some(l) => map_block(indent + "labels:"@, indent + "  "@, l.entries_seq()),
    }) + (match m.managed_fields {
        None => Seq::<char>::empty(),
        Some(v) => manager_block(indent + "managedFields:"@, indent + "- manager: "@, v@),
    })
}

/// One key-selector reference under its header.
pub open spec fn key_selector_block(header: Seq<char>, indent: Seq<char>, k: KeySelector) -> Seq<
    char,
> {
    header + "\n"@ + indent + "name: "@ + k.name@ + "\n"@ + indent + "key: "@ + k.key@ + "\n"@
        + opt_bool_line(indent + "optional: "@, k.optional)
}

/// The block of a pod-field reference.
pub open spec fn field_ref_block(f: FieldSelector) -> Seq<char> {
    "            fieldRef:\n"@ + opt_str_line("              apiVersion: "@, f.api_version)
        + "              fieldPath: "@ + f.field_path@ + "\n"@
}

/// The block of a container-resource reference.
pub open spec fn resource_field_ref_block(r: ResourceFieldSelector) -> Seq<char> {
    "            resourceFieldRef:\n"@ + opt_str_line(
        "              containerName: "@,
        r.container_name,
    ) + opt_str_line("              divisor: "@, r.divisor) + "              resource: "@
        + r.resource@ + "\n"@
}

/// The `valueFrom` block of one environment entry.
pub open spec fn env_source_block(s: EnvVarSource) -> Seq<char> {
    "          valueFrom:\n"@ + (match s.config_map_key_ref {
        None => Seq::<char>::empty(),
        Some(k) => key_selector_block(
            "            configMapKeyRef:"@,
            "              "@,
            k,
        ),
    }) + (match s.secret_key_ref {
        None => Seq::<char>::empty(),
        Some(k) => key_selector_block("            secretKeyRef:"@, "              "@, k),
    }) + (match s.field_ref {
        None => Seq::<char>::empty(),
        Some(f) => field_ref_block(f),
    }) + (match s.resource_field_ref {
        None => Seq::<char>::empty(),
        Some(r) => resource_field_ref_block(r),
    })
}

/// One environment entry item.
pub open spec fn env_item(e: EnvVar) -> Seq<char> {
    "        - name: "@ + e.name@ + "\n"@ + opt_str_line("          value: "@, e.value) + (
    match e.value_from {
        None => Seq::<char>::empty(),
        Some(s) => env_source_block(s),
    })
}

/// The environment entry items of one container, in order.
pub open spec fn env_items(es: Seq<EnvVar>) -> Seq<char>
    decreases es.len(),
{
    if es.len() == 0 {
        Seq::empty()
    } else {
        env_items(es.drop_last()) + env_item(es.last())
    }
}

/// A container's environment list: `[]` inline when declared empty.
pub open spec fn env_block(es: Seq<EnvVar>) -> Seq<char> {
    if es.len() == 0 {
        "        env: []\n"@
    } else {
        "        env:\n"@ + env_items(es)
    }
}

/// A container's resource block: limits and requests maps, `{}` inline
/// when both are absent.
pub open spec fn resources_block(rr: ResourceRequirements) -> Seq<char> {
    if rr.limits is None && rr.requests is None {
        "        resources: {}\n"@
    } else {
        "        resources:\n"@ + (match rr.limits {
            None => Seq::<char>::empty(),
            Some(l) => map_block("          limits:"@, "            "@, l.entries_seq()),
        }) + (match rr.requests {
            None => Seq::<char>::empty(),
            Some(r) => map_block("          requests:"@, "            "@, r.entries_seq()),
        })
    }
}

/// One container item.
pub open spec fn container_item(c: Container) -> Seq<char> {
    "      - name: "@ + c.name@ + "\n"@ + opt_str_line("        image: "@, c.image) + (
    match c.env {
        None => Seq::<char>::empty(),
        Some(es) => env_block(es@),
    }) + (match c.resources {
        None => Seq::<char>::empty(),
        Some(rr) => resources_block(rr),
    })
}

/// The container items of a pod spec, in order.
pub open spec fn container_items(cs: Seq<Container>) -> Seq<char>
    decreases cs.len(),
{
    if cs.len() == 0 {
        Seq::empty()
    } else {
        container_items(cs.drop_last()) + container_item(cs.last())
    }
}

/// The pod-level spec block of the template.
pub open spec fn pod_spec_block(ps: PodSpec) -> Seq<char> {
    "    spec:\n"@ + opt_str_line("      restartPolicy: "@, ps.restart_policy) + (if ps.containers@.len() == 0 {
        "      containers: []\n"@
    } else {
        "      containers:\n"@ + container_items(ps.containers@)
    })
}

/// The pod template block of the job spec.
pub open spec fn pod_template_block(t: PodTemplateSpec) -> Seq<char> {
    "  template:\n"@ + (match t.metadata {
        None => Seq::<char>::empty(),
        Some(m) => "    metadata:\n"@ + meta_fields("      "@, m),
    }) + (match t.spec {
        None => Seq::<char>::empty(),
        Some(ps) => pod_spec_block(ps),
    })
}

/// The job-level spec block.
pub open spec fn job_spec_block(s: JobSpec) -> Seq<char> {
    "spec:\n"@ + opt_int_line("  backoffLimit: "@, s.backoff_limit) + opt_int_line(
        "  parallelism: "@,
        s.parallelism,
    ) + opt_int_line("  completions: "@, s.completions) + (match s.selector {
        None => Seq::<char>::empty(),
        Some(sel) => "  selector:\n"@ + (match sel.match_labels {
            None => Seq::<char>::empty(),
            Some(m) => map_block("    matchLabels:"@, "      "@, m.entries_seq()),
        }),
    }) + pod_template_block(s.template)
}

/// The whole rendered job.
pub open spec fn job_doc(j: Job) -> Seq<char> {
    "apiVersion: batch/v1\nkind: Job\nmetadata:\n"@ + meta_fields("  "@, j.metadata) + (
    match j.spec {
        None => Seq::<char>::empty(),
        Some(s) => job_spec_block(s),
    })
}

/// Appends one optional string field line.
fn push_opt_str(out: &mut String, prefix: &str, v: &Option<String>)
    ensures
        final(out)@ == old(out)@ + opt_str_line(prefix@, *v),
{
    match v {
        None => {},
        Some(s) => {
            out.append(prefix);
            out.append(s.as_str());
            out.append("\n");
        },
    }
}

/// Appends the decimal digits of a non-negative number.
fn push_nat(out: &mut String, n: u64)
    ensures
        final(out)@ == old(out)@ + nat_dec(n as int),
    decreases n,
{
    if n < 10 {
        out.append(digit_str(n));
    } else {
        push_nat(out, n / 10);
        out.append(digit_str(n % 10));
    }
}

/// The one-character string of a decimal digit.
fn digit_str(d: u64) -> (r: &'static str)
    requires
        d < 10,
    ensures
        r@ == seq![dec_digit(d as int)],
{
    let r = if d == 0 {
        "0"
    } else if d == 1 {
        "1"
    } else if d == 2 {
        "2"
    } else if d == 3 {
        "3"
    } else if d == 4 {
        "4"
    } else if d == 5 {
        "5"
    } else if d == 6 {
        "6"
    } else if d == 7 {
        "7"
    } else if d == 8 {
        "8"
    } else {
        "9"
    };
    proof {
        reveal_strlit("0");
        reveal_strlit("1");
        reveal_strlit("2");
        reveal_strlit("3");
        reveal_strlit("4");
        reveal_strlit("5");
        reveal_strlit("6");
        reveal_strlit("7");
        reveal_strlit("8");
        reveal_strlit("9");
        assert(r@ =~= seq![dec_digit(d as int)]);
    }
    r
}

/// Appends one optional integer field line.
fn push_opt_int(out: &mut String, prefix: &str, v: &Option<i32>)
    ensures
        final(out)@ == old(out)@ + opt_int_line(prefix@, *v),
{
    match v {
        None => {},
        Some(n) => {
            out.append(prefix);
            let nv = *n;
            if nv < 0 {
                proof {
                    reveal_strlit("-");
                }
                out.append("-");
                let mag: u64 = (-(nv as i64)) as u64;
                proof {
                    assert(mag as int == -(nv as int));
                    assert("-"@ =~= seq!['-']);
                }
                push_nat(out, mag);
            } else {
                push_nat(out, nv as u64);
            }
            out.append("\n");
            proof {
                assert(out@ =~= old(out)@ + opt_int_line(prefix@, Some(nv)));
            }
        },
    }
}

/// Appends one optional boolean field line.
fn push_opt_bool(out: &mut String, prefix: &str, v: &Option<bool>)
    ensures
        final(out)@ == old(out)@ + opt_bool_line(prefix@, *v),
{
    match v {
        None => {},
        Some(b) => {
            out.append(prefix);
            if *b {
                out.append("true\n");
            } else {
                out.append("false\n");
            }
        },
    }
}

/// Appends a whole map block.
fn push_map(out: &mut String, header: &str, indent: &str, m: &StrMap<String>)
    ensures
        final(out)@ == old(out)@ + map_block(header@, indent@, m.entries_seq()),
{
    let n = m.len();
    if n == 0 {
        out.append(header);
        out.append(" {}\n");
        return ;
    }
    out.append(header);
    out.append("\n");
    let ghost base = out@;
    let mut i: usize = 0;
    while i < n
        invariant
            i <= n,
            n == m.entries_seq().len(),
            out@ == base + map_items(indent@, m.entries_seq().take(i as int)),
        decreases n - i,
    {
        proof {
            assert(m.entries_seq().take(i as int + 1).drop_last() =~= m.entries_seq().take(
                i as int,
            ));
            assert(m.entries_seq().take(i as int + 1).last() == m.entries_seq()[i as int]);
        }
        out.append(indent);
        out.append(m.key_at(i).as_str());
        out.append(": ");
        out.append(m.value_at(i).as_str());
        out.append("\n");
        i = i + 1;
    }
    proof {
        assert(m.entries_seq().take(n as int) =~= m.entries_seq());
    }
}

/// Appends the field-ownership list block.
fn push_managers(out: &mut String, header: &str, prefix: &str, v: &Vec<String>)
    ensures
        final(out)@ == old(out)@ + manager_block(header@, prefix@, v@),
{
    let n = v.len();
    if n == 0 {
        out.append(header);
        out.append(" []\n");
        return ;
    }
    out.append(header);
    out.append("\n");
    let ghost base = out@;
    let mut i: usize = 0;
    while i < n
        invariant
            i <= n,
            n == v@.len(),
            out@ == base + manager_items(prefix@, v@.take(i as int)),
        decreases n - i,
    {
        proof {
            assert(v@.take(i as int + 1).drop_last() =~= v@.take(i as int));
            assert(v@.take(i as int + 1).last() == v@[i as int]);
        }
        out.append(prefix);
        out.append(v[i].as_str());
        out.append("\n");
        i = i + 1;
    }
    proof {
        assert(v@.take(n as int) =~= v@);
    }
}

/// Appends a metadata block's fields at the given indent.
fn push_meta_fields(out: &mut String, indent: &str, m: &ObjectMeta)
    ensures
        final(out)@ == old(out)@ + meta_fields(indent@, *m),
{
    let mut name_prefix = indent.to_owned();
    name_prefix.append("name: ");
    push_opt_str(out, name_prefix.as_str(), &m.name);
    match &m.labels {
        None => {},
        Some(l) => {
            let mut header = indent.to_owned();
            header.append("labels:");
            let mut item_indent = indent.to_owned();
            item_indent.append("  ");
            push_map(out, header.as_str(), item_indent.as_str(), l);
        },
    }
    match &m.managed_fields {
        None => {},
        Some(v) => {
            let mut header = indent.to_owned();
            header.append("managedFields:");
            let mut item_prefix = indent.to_owned();
            item_prefix.append("- manager: ");
            push_managers(out, header.as_str(), item_prefix.as_str(), v);
        },
    }
}

/// Appends one key-selector reference block.
fn push_key_selector(out: &mut String, header: &str, indent: &str, k: &KeySelector)
    ensures
        final(out)@ == old(out)@ + key_selector_block(header@, indent@, *k),
{
    out.append(header);
    out.append("\n");
    out.append(indent);
    out.append("name: ");
    out.append(k.name.as_str());
    out.append("\n");
    out.append(indent);
    out.append("key: ");
    out.append(k.key.as_str());
    out.append("\n");
    let mut opt_prefix = indent.to_owned();
    opt_prefix.append("optional: ");
    push_opt_bool(out, opt_prefix.as_str(), &k.optional);
}

/// Appends one environment entry's `valueFrom` block.
#[verifier::rlimit(100)]
fn push_env_source(out: &mut String, s: &EnvVarSource)
    ensures
        final(out)@ == old(out)@ + env_source_block(*s),
{
    out.append("          valueFrom:\n");
    match &s.config_map_key_ref {
        None => {},
        Some(k) => {
            push_key_selector(out, "            configMapKeyRef:", "              ", k);
        },
    }
    match &s.secret_key_ref {
        None => {},
        Some(k) => {
            push_key_selector(out, "            secretKeyRef:", "              ", k);
        },
    }
    match &s.field_ref {
        None => {},
        Some(f) => {
            push_field_ref(out, f);
        },
    }
    match &s.resource_field_ref {
        None => {},
        Some(r) => {
            push_resource_field_ref(out, r);
        },
    }
}

/// Appends a pod-field reference block.
fn push_field_ref(out: &mut String, f: &FieldSelector)
    ensures
        final(out)@ == old(out)@ + field_ref_block(*f),
{
    out.append("            fieldRef:\n");
    push_opt_str(out, "              apiVersion: ", &f.api_version);
    out.append("              fieldPath: ");
    out.append(f.field_path.as_str());
    out.append("\n");
}

/// Appends a container-resource reference block.
fn push_resource_field_ref(out: &mut String, r: &ResourceFieldSelector)
    ensures
        final(out)@ == old(out)@ + resource_field_ref_block(*r),
{
    out.append("            resourceFieldRef:\n");
    push_opt_str(out, "              containerName: ", &r.container_name);
    push_opt_str(out, "              divisor: ", &r.divisor);
    out.append("              resource: ");
    out.append(r.resource.as_str());
    out.append("\n");
}

/// Appends one container's environment list.
#[verifier::rlimit(100)]
fn push_env_list(out: &mut String, es: &Vec<EnvVar>)
    ensures
        final(out)@ == old(out)@ + env_block(es@),
{
    let n = es.len();
    if n == 0 {
        out.append("        env: []\n");
        return ;
    }
    out.append("        env:\n");
    let ghost base = out@;
    let mut i: usize = 0;
    while i < n
        invariant
            i <= n,
            n == es@.len(),
            out@ == base + env_items(es@.take(i as int)),
        decreases n - i,
    {
        proof {
            assert(es@.take(i as int + 1).drop_last() =~= es@.take(i as int));
            assert(es@.take(i as int + 1).last() == es@[i as int]);
        }
        let e = &es[i];
        out.append("        - name: ");
        out.append(e.name.as_str());
        out.append("\n");
        push_opt_str(out, "          value: ", &e.value);
        match &e.value_from {
            None => {},
            Some(s) => {
                push_env_source(out, s);
            },
        }
        i = i + 1;
    }
    proof {
        assert(es@.take(n as int) =~= es@);
    }
}

/// Appends one container's resource block.
fn push_resources(out: &mut String, rr: &ResourceRequirements)
    ensures
        final(out)@ == old(out)@ + resources_block(*rr),
{
    if rr.limits.is_none() && rr.requests.is_none() {
        out.append("        resources: {}\n");
        return ;
    }
    out.append("        resources:\n");
    match &rr.limits {
        None => {},
        Some(l) => {
            push_map(out, "          limits:", "            ", l);
        },
    }
    match &rr.requests {
        None => {},
        Some(r) => {
            push_map(out, "          requests:", "            ", r);
        },
    }
}

/// Appends the container list of the pod spec.
#[verifier::rlimit(100)]
fn push_containers(out: &mut String, cs: &Vec<Container>)
    ensures
        final(out)@ == old(out)@ + (if cs@.len() == 0 {
            "      containers: []\n"@
        } else {
            "      containers:\n"@ + container_items(cs@)
        }),
{
    let n = cs.len();
    if n == 0 {
        out.append("      containers: []\n");
        return ;
    }
    out.append("      containers:\n");
    let ghost base = out@;
    let mut i: usize = 0;
    while i < n
        invariant
            i <= n,
            n == cs@.len(),
            out@ == base + container_items(cs@.take(i as int)),
        decreases n - i,
    {
        proof {
            assert(cs@.take(i as int + 1).drop_last() =~= cs@.take(i as int));
            assert(cs@.take(i as int + 1).last() == cs@[i as int]);
        }
        let c = &cs[i];
        out.append("      - name: ");
        out.append(c.name.as_str());
        out.append("\n");
        push_opt_str(out, "        image: ", &c.image);
        match &c.env {
            None => {},
            Some(es) => {
                push_env_list(out, es);
            },
        }
        match &c.resources {
            None => {},
            Some(rr) => {
                push_resources(out, rr);
            },
        }
        i = i + 1;
    }
    proof {
        assert(cs@.take(n as int) =~= cs@);
    }
}

/// Appends the pod template block.
fn push_pod_template(out: &mut String, t: &PodTemplateSpec)
    ensures
        final(out)@ == old(out)@ + pod_template_block(*t),
{
    out.append("  template:\n");
    match &t.metadata {
        None => {},
        Some(m) => {
            out.append("    metadata:\n");
            push_meta_fields(out, "      ", m);
        },
    }
    match &t.spec {
        None => {},
        Some(ps) => {
            out.append("    spec:\n");
            push_opt_str(out, "      restartPolicy: ", &ps.restart_policy);
            push_containers(out, &ps.containers);
        },
    }
}

/// Renders a job object as its canonical structured-document text.
pub fn render_job(job: &Job) -> (r: String)
    ensures
        r@ == job_doc(*job),
{
    let mut out = String::new();
    out.append("apiVersion: batch/v1\nkind: Job\nmetadata:\n");
    push_meta_fields(&mut out, "  ", &job.metadata);
    match &job.spec {
        None => {},
        Some(s) => {
            out.append("spec:\n");
            push_opt_int(&mut out, "  backoffLimit: ", &s.backoff_limit);
            push_opt_int(&mut out, "  parallelism: ", &s.parallelism);
            push_opt_int(&mut out, "  completions: ", &s.completions);
            match &s.selector {
                None => {},
                Some(sel) => {
                    out.append("  selector:\n");
                    match &sel.match_labels {
                        None => {},
                        Some(m) => {
                            push_map(&mut out, "    matchLabels:", "      ", m);
                        },
                    }
                },
            }
            push_pod_template(&mut out, &s.template);
        },
    }
    out
}

} // verus!
