use sme_core::tier::FidelityTier;

#[test]
fn default_is_tier0() {
    assert_eq!(FidelityTier::default(), FidelityTier::Tier0);
}

#[test]
fn next_cycles_through_tiers() {
    assert_eq!(FidelityTier::Tier0.next(), FidelityTier::Tier2);
    assert_eq!(FidelityTier::Tier2.next(), FidelityTier::Tier0);
}

#[test]
fn label_returns_readable_string() {
    assert!(FidelityTier::Tier0.label().contains("Tier 0"));
    assert!(FidelityTier::Tier2.label().contains("Tier 2"));
}

#[test]
fn display_matches_label() {
    for &tier in FidelityTier::all().iter() {
        assert_eq!(tier.display(), tier.label());
    }
}

#[test]
fn all_contains_every_variant() {
    let all = FidelityTier::all();
    assert_eq!(all.len(), 2);
    assert!(all.contains(&FidelityTier::Tier0));
    assert!(all.contains(&FidelityTier::Tier2));
}
