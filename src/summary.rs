//! The human-readable configuration summary printed by `--print-config`.

use vstd::prelude::*;
use vstd::string::*;
use crate::config::{EndpointConfig, LabmanConfig};
use crate::error::{decimal, decimal_string};

verus! {

/// `v`, or `default` when absent.
pub open spec fn or_text(v: Option<String>, default: Seq<char>) -> Seq<char> {
    match v {
        Some(s) => s@,
        None => default,
    }
}

/// The items of `v` separated by `, `.
pub open spec fn joined(v: Seq<String>) -> Seq<char>
    decreases v.len(),
{
    if v.len() == 0 {
        Seq::empty()
    } else if v.len() == 1 {
        v[0]@
    } else {
        joined(v.drop_last()) + ", "@ + v.last()@
    }
}

/// `[a, b, ...]`, or `<none>` for an absent or empty list.
pub open spec fn pattern_text(v: Option<Vec<String>>) -> Seq<char> {
    match v {
        Some(p) => if p@.len() > 0 {
            "["@ + joined(p@) + "]"@
        } else {
            "<none>"@
        },
        None => "<none>"@,
    }
}

/// The summary lines of one endpoint.
pub open spec fn endpoint_lines(e: EndpointConfig) -> Seq<Seq<char>> {
    seq![
        "    - name        = "@ + e.name@,
        "      base_url    = "@ + e.base_url@,
        "      max_concurrent = "@ + match e.max_concurrent {
            Some(m) => decimal(m as nat),
            None => "<unbounded>"@,
        },
        "      models_include = "@ + pattern_text(e.models_include),
        "      models_exclude = "@ + pattern_text(e.models_exclude),
    ]
}

/// The summary lines of the first `n` endpoints.
pub open spec fn endpoints_lines(eps: Seq<EndpointConfig>, n: int) -> Seq<Seq<char>>
    decreases n,
{
    if n <= 0 {
        Seq::empty()
    } else {
        endpoints_lines(eps, n - 1) + endpoint_lines(eps[n - 1])
    }
}

/// The whole summary, line by line.
pub open spec fn summary_lines(c: LabmanConfig) -> Seq<Seq<char>> {
    let ips = if c.wireguard.allowed_ips@.len() == 0 {
        "<none>"@
    } else {
        joined(c.wireguard.allowed_ips@)
    };
    let head = seq![
        "labmand configuration summary:"@,
        "  control_plane.base_url = "@ + c.control_plane.base_url@,
        "  control_plane.region    = "@ + or_text(c.control_plane.region, "-"@),
        "  control_plane.description = "@ + or_text(c.control_plane.description, "-"@),
        "  wireguard.interface_name = "@ + c.wireguard.interface_name@,
        "  wireguard.address        = "@ + or_text(
            c.wireguard.address,
            "<not set; may be provided by control plane>"@,
        ),
        "  wireguard.peer_endpoint  = "@ + or_text(c.wireguard.peer_endpoint, "<not set>"@),
        "  wireguard.allowed_ips    = ["@ + ips + "]"@,
        "  proxy.listen_port        = "@ + decimal(c.proxy.listen_port as nat),
        "  proxy.listen_addr        = "@ + or_text(c.proxy.listen_addr, "<default (WG addr)>"@),
        "  endpoints:"@,
    ];
    if c.endpoints@.len() == 0 {
        head.push("    <none configured>"@)
    } else {
        head + endpoints_lines(c.endpoints@, c.endpoints@.len() as int)
    }
}

fn join_items(v: &Vec<String>) -> (r: String)
    ensures
        r@ == joined(v@),
{
    let mut s = String::new();
    let mut k: usize = 0;
    while k < v.len()
        invariant
            k <= v@.len(),
            s@ == joined(v@.subrange(0, k as int)),
        decreases v.len() - k,
    {
        proof {
            let a = v@.subrange(0, k + 1);
            assert(a.drop_last() =~= v@.subrange(0, k as int));
            assert(a.last() == v@[k as int]);
            if k == 0 {
                assert(joined(v@.subrange(0, 0)) =~= Seq::<char>::empty());
                assert(a.len() == 1 && a[0] == v@[0]);
            }
        }
        if k == 0 {
            s = v[0].clone();
        } else {
            s.append(", ");
            s.append(v[k].as_str());
        }
        k += 1;
    }
    assert(v@.subrange(0, v@.len() as int) =~= v@);
    s
}

fn line(head: &str, body: &str) -> (r: String)
    ensures
        r@ == head@ + body@,
{
    let mut s = head.to_owned();
    s.append(body);
    s
}

fn text_or(v: &Option<String>, default: &str) -> (r: String)
    ensures
        r@ == or_text(*v, default@),
{
    match v {
        Some(s) => s.clone(),
        None => default.to_owned(),
    }
}

fn patterns(v: &Option<Vec<String>>) -> (r: String)
    ensures
        r@ == pattern_text(*v),
{
    match v {
        Some(p) => if p.len() > 0 {
            let mut s = "[".to_owned();
            let j = join_items(p);
            s.append(j.as_str());
            s.append("]");
            s
        } else {
            "<none>".to_owned()
        },
        None => "<none>".to_owned(),
    }
}

/// The configuration summary, one string per line.
pub fn config_summary_lines(c: &LabmanConfig) -> (r: Vec<String>)
    ensures
        r@.len() == summary_lines(*c).len(),
        forall|i: int| 0 <= i < r@.len() ==> (#[trigger] r@[i])@ == summary_lines(*c)[i],
{
    let mut out: Vec<String> = Vec::new();
    out.push("labmand configuration summary:".to_owned());
    out.push(line("  control_plane.base_url = ", c.control_plane.base_url.as_str()));
    out.push(line("  control_plane.region    = ", text_or(&c.control_plane.region, "-").as_str()));
    out.push(line("  control_plane.description = ", text_or(&c.control_plane.description, "-").as_str()));
    out.push(line("  wireguard.interface_name = ", c.wireguard.interface_name.as_str()));
    out.push(
        line(
            "  wireguard.address        = ",
            text_or(&c.wireguard.address, "<not set; may be provided by control plane>").as_str(),
        ),
    );
    out.push(line("  wireguard.peer_endpoint  = ", text_or(&c.wireguard.peer_endpoint, "<not set>").as_str()));
    let ips = if c.wireguard.allowed_ips.len() == 0 {
        "<none>".to_owned()
    } else {
        join_items(&c.wireguard.allowed_ips)
    };
    let mut ip_line = "  wireguard.allowed_ips    = [".to_owned();
    ip_line.append(ips.as_str());
    ip_line.append("]");
    out.push(ip_line);
    out.push(line("  proxy.listen_port        = ", decimal_string(c.proxy.listen_port as u64).as_str()));
    out.push(line("  proxy.listen_addr        = ", text_or(&c.proxy.listen_addr, "<default (WG addr)>").as_str()));
    out.push("  endpoints:".to_owned());
    let ghost head = out@.map_values(|s: String| s@);
    if c.endpoints.len() == 0 {
        out.push("    <none configured>".to_owned());
        proof {
            assert(out@.map_values(|s: String| s@) =~= summary_lines(*c));
        }
        return out;
    }
    let mut i: usize = 0;
    while i < c.endpoints.len()
        invariant
            i <= c.endpoints@.len(),
            c.endpoints@.len() > 0,
            out@.map_values(|s: String| s@) == head + endpoints_lines(c.endpoints@, i as int),
        decreases c.endpoints.len() - i,
    {
        let e = &c.endpoints[i];
        let ghost before = out@.map_values(|s: String| s@);
        out.push(line("    - name        = ", e.name.as_str()));
        out.push(line("      base_url    = ", e.base_url.as_str()));
        let cap = match e.max_concurrent {
            Some(m) => decimal_string(m as u64),
            None => "<unbounded>".to_owned(),
        };
        out.push(line("      max_concurrent = ", cap.as_str()));
        out.push(line("      models_include = ", patterns(&e.models_include).as_str()));
        out.push(line("      models_exclude = ", patterns(&e.models_exclude).as_str()));
        proof {
            assert(out@.map_values(|s: String| s@) =~= before + endpoint_lines(c.endpoints@[i as int]));
            assert(head + endpoints_lines(c.endpoints@, i + 1) =~= head + endpoints_lines(c.endpoints@, i as int)
                + endpoint_lines(c.endpoints@[i as int]));
        }
        i += 1;
    }
    proof {
        assert(out@.map_values(|s: String| s@) =~= summary_lines(*c));
        assert forall|k: int| 0 <= k < out@.len() implies (#[trigger] out@[k])@ == summary_lines(*c)[k] by {
            assert(out@.map_values(|s: String| s@)[k] == out@[k]@);
        }
    }
    out
}

} // verus!
