use vstd::prelude::*;

use crate::config::{redact_all, Config};
use crate::model::{DoctorOutput, ProviderHealth};
use crate::service::{endpoints_spec, provider_endpoints, provider_key_name, provider_key_name_spec, redact_endpoint_spec, ProbeResult};
use crate::text::{push_str, str_eq, views};

verus! {

/// The providers that diagnostics list, in order.
pub open spec fn doctor_names() -> Seq<Seq<char>> {
    seq!["chatgpt2api"@, "tavily"@, "firecrawl"@, "tinyfish"@, "exa"@]
}

/// The providers that diagnostics list, in order.
pub fn doctor_provider_names() -> (r: Vec<&'static str>)
    ensures
        r@.map_values(|s: &'static str| s@) == doctor_names(),
{
    let mut r: Vec<&'static str> = Vec::new();
    r.push("chatgpt2api");
    r.push("tavily");
    r.push("firecrawl");
    r.push("tinyfish");
    r.push("exa");
    assert(r@.map_values(|s: &'static str| s@) =~= doctor_names());
    r
}

/// The first probe of the named provider.
pub open spec fn find_probe(probes: Seq<ProbeResult>, name: Seq<char>) -> Option<ProbeResult>
    decreases probes.len(),
{
    if probes.len() == 0 {
        None
    } else if probes[0].provider@ == name {
        Some(probes[0])
    } else {
        find_probe(probes.drop_first(), name)
    }
}

/// Whether diagnostics count a provider as enabled.
pub open spec fn enabled_spec(c: Config, name: Seq<char>) -> bool {
    let configured = c.provider_configured_spec(name);
    if name == "chatgpt2api"@ {
        configured
    } else if c.source_providers_explicit {
        views(c.source_providers@).contains(name)
    } else {
        configured
    }
}

/// The health row of one provider.
pub open spec fn health_matches(h: ProviderHealth, c: Config, name: Seq<char>, probes: Seq<ProbeResult>) -> bool {
    let configured = c.provider_configured_spec(name);
    let enabled = enabled_spec(c, name);
    &&& h.provider@ == name
    &&& h.enabled == enabled
    &&& h.configured == configured
    &&& views(h.endpoints@) == endpoints_spec(c, name).map_values(|e: Seq<char>| redact_endpoint_spec(c, e))
    &&& h.credential@ == if configured { "set"@ } else { "unset"@ }
    &&& if !configured {
        &&& !h.reachable
        &&& h.status@ == "not_configured"@
        &&& h.detail@ == provider_key_name_spec(name) + " is not configured"@
    } else if !enabled {
        &&& !h.reachable
        &&& h.status@ == "disabled"@
        &&& h.detail@ == "disabled by HYBRID_SEARCH_SOURCE_PROVIDERS"@
    } else {
        match find_probe(probes, name) {
            Some(p) => h.reachable == p.reachable && h.status@ == p.status@
                && h.detail@ == redact_all(p.detail@, c.secrets_spec()),
            None => !h.reachable && h.status@ == "not_probed"@ && h.detail@ == "provider was not probed"@,
        }
    }
}

fn find_probe_exec<'a>(probes: &'a Vec<ProbeResult>, name: &str) -> (r: Option<&'a ProbeResult>)
    ensures
        match r {
            Some(p) => find_probe(probes@, name@) == Some(*p),
            None => find_probe(probes@, name@).is_none(),
        },
{
    let mut i: usize = 0;
    assert(probes@.skip(0) == probes@);
    while i < probes.len()
        invariant
            i <= probes.len(),
            find_probe(probes@, name@) == find_probe(probes@.skip(i as int), name@),
        decreases probes.len() - i,
    {
        assert(probes@.skip(i as int)[0] == probes@[i as int]);
        assert(probes@.skip(i as int).drop_first() == probes@.skip(i + 1));
        if str_eq(probes[i].provider.as_str(), name) {
            return Some(&probes[i]);
        }
        i += 1;
    }
    None
}

/// The health row of one provider: whether it is enabled and configured, its redacted
/// endpoints, and its probe, or why it was not probed.
pub fn provider_health(config: &Config, name: &str, probes: &Vec<ProbeResult>) -> (h: ProviderHealth)
    ensures
        health_matches(h, *config, name@, probes@),
{
    let configured = config.provider_configured(name);
    let enabled = if str_eq(name, "chatgpt2api") {
        configured
    } else if config.source_providers_explicit {
        config.source_provider_enabled(name)
    } else {
        configured
    };
    let (reachable, status, detail) = if !configured {
        let mut d = provider_key_name(name).to_owned();
        push_str(&mut d, " is not configured");
        (false, "not_configured".to_owned(), d)
    } else if !enabled {
        (false, "disabled".to_owned(), "disabled by HYBRID_SEARCH_SOURCE_PROVIDERS".to_owned())
    } else {
        match find_probe_exec(probes, name) {
            Some(p) => (p.reachable, p.status.clone(), config.redact_text(p.detail.as_str())),
            None => (false, "not_probed".to_owned(), "provider was not probed".to_owned()),
        }
    };
    ProviderHealth {
        provider: name.to_owned(),
        enabled,
        configured,
        endpoints: provider_endpoints(config, name),
        credential: if configured { "set".to_owned() } else { "unset".to_owned() },
        reachable,
        status,
        detail,
    }
}

/// Whether some enabled provider is missing its configuration or unreachable.
pub open spec fn degraded_spec(rows: Seq<ProviderHealth>) -> bool {
    exists|i: int| 0 <= i < rows.len() && rows[i].enabled && (!rows[i].configured || !rows[i].reachable)
}

/// The diagnostics report.
pub fn doctor_output(config: &Config, providers: Vec<ProviderHealth>, debug_log_path: Option<String>) -> (o: DoctorOutput)
    ensures
        o.status@ == if degraded_spec(providers@) { "degraded"@ } else { "ok"@ },
        o.configuration_source@ == "environment + built-in defaults"@,
        views(o.provider_order@) == config.effective_order_spec(),
        views(o.source_provider_order@) == views(config.source_providers@),
        o.providers == providers,
        o.github_token_configured == config.github_token.is_some(),
        o.timeout_seconds == config.timeout_seconds,
        o.cache_size == config.cache_size,
        o.response_max_chars == config.response_max_chars,
        o.debug_log_path == debug_log_path,
{
    let mut degraded = false;
    let mut i: usize = 0;
    while i < providers.len()
        invariant
            i <= providers.len(),
            degraded == exists|j: int| 0 <= j < i && providers@[j].enabled && (!providers@[j].configured || !providers@[j].reachable),
        decreases providers.len() - i,
    {
        if providers[i].enabled && (!providers[i].configured || !providers[i].reachable) {
            degraded = true;
        }
        i += 1;
    }
    let mut order: Vec<String> = Vec::new();
    let mut k: usize = 0;
    while k < config.source_providers.len()
        invariant
            k <= config.source_providers.len(),
            views(order@) == views(config.source_providers@).subrange(0, k as int),
        decreases config.source_providers.len() - k,
    {
        let ghost before = views(order@);
        order.push(config.source_providers[k].clone());
        assert(views(order@) =~= before.push(config.source_providers@[k as int]@));
        assert(views(config.source_providers@).subrange(0, k + 1) =~= views(config.source_providers@).subrange(0, k as int).push(config.source_providers@[k as int]@));
        k += 1;
    }
    assert(views(config.source_providers@).subrange(0, config.source_providers@.len() as int) == views(config.source_providers@));
    DoctorOutput {
        status: if degraded { "degraded".to_owned() } else { "ok".to_owned() },
        configuration_source: "environment + built-in defaults".to_owned(),
        provider_order: config.effective_provider_order(),
        source_provider_order: order,
        providers,
        github_token_configured: config.github_token.is_some(),
        timeout_seconds: config.timeout_seconds,
        cache_size: config.cache_size,
        response_max_chars: config.response_max_chars,
        debug_log_path,
    }
}

} // verus!
