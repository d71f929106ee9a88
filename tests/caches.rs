use aftman::installed::InstalledToolsCache;
use aftman::tool_id::ToolId;
use aftman::tool_name::ToolName;
use aftman::trust::{after_answer, trust_step, AnswerStep, TrustCache, TrustMode, TrustStep};

#[test]
fn get_and_add() {
    let cache = TrustCache::read("");
    assert!(cache.is_empty());

    let tool_name = ToolName::parse("foo/bar").unwrap();

    let mut cache = cache;
    let added = cache.add(tool_name.clone());
    assert!(added);

    let cache = TrustCache::read(&cache.render());
    assert!(cache.len() == 1);
    assert!(cache.contains(&tool_name));
}

#[test]
fn trust_file_is_sorted_and_deduplicated() {
    let mut cache = TrustCache::read("b/two\r\nnot a name\na/one\nb/two\n");
    assert_eq!(cache.len(), 2);
    assert!(!cache.add(ToolName::parse("a/one").unwrap()));
    assert!(cache.add(ToolName::parse("a/zero").unwrap()));
    assert_eq!(cache.render(), "a/one\na/zero\nb/two\n");
}

#[test]
fn trusted_once_never_asks_again() {
    let mut cache = TrustCache::new();
    let name = ToolName::parse("acme/tool").unwrap();
    assert_eq!(trust_step(&cache, &name, TrustMode::Check, true), TrustStep::Ask);
    assert_eq!(after_answer(Some(true)), AnswerStep::Record);
    cache.add(name.clone());
    for mode in [TrustMode::Check, TrustMode::NoCheck] {
        for interactive in [true, false] {
            assert_eq!(trust_step(&cache, &name, mode, interactive), TrustStep::Trusted);
        }
    }
    let other_version = ToolId::parse("acme/tool@9.9.9").unwrap();
    assert_eq!(trust_step(&cache, other_version.name(), TrustMode::Check, false), TrustStep::Trusted);
}

#[test]
fn untrusted_tool_gating() {
    let cache = TrustCache::new();
    let name = ToolName::parse("acme/tool").unwrap();
    assert_eq!(trust_step(&cache, &name, TrustMode::Check, false), TrustStep::Refuse);
    assert_eq!(trust_step(&cache, &name, TrustMode::NoCheck, false), TrustStep::Record);
    assert_eq!(after_answer(Some(false)), AnswerStep::Exit(1));
    assert_eq!(after_answer(None), AnswerStep::Exit(1));
}

#[test]
fn installed_cache_round_trip() {
    let mut cache = InstalledToolsCache::read("acme/tool@1.10.0\nacme/tool@1.9.0\nbad line\n");
    assert_eq!(cache.len(), 2);
    assert!(cache.contains(&ToolId::parse("acme/tool@1.9.0").unwrap()));
    assert!(cache.add(ToolId::parse("acme/tool@1.9.1").unwrap()));
    assert!(!cache.add(ToolId::parse("acme/tool@1.9.1").unwrap()));
    assert_eq!(cache.render(), "acme/tool@1.9.0\nacme/tool@1.9.1\nacme/tool@1.10.0\n");
    let again = InstalledToolsCache::read(&cache.render());
    assert_eq!(again.render(), cache.render());
}
