//! The state that the application's parts share: its settings and the configurations of
//! its tenants.
use std::collections::HashMap;
use vstd::prelude::*;

verus! {

/// A tenant's configuration: whose it is, and what it sets.
#[derive(Debug)]
pub struct TenantConfig<S> {
    pub tenant_id: u128,
    pub settings: S,
}

impl<S: Clone> Clone for TenantConfig<S> {
    fn clone(&self) -> (r: Self)
        ensures
            r.tenant_id == self.tenant_id,
            cloned(self.settings, r.settings),
    {
        TenantConfig { tenant_id: self.tenant_id, settings: self.settings.clone() }
    }
}

/// The shared state, as far as it is plain data.
pub struct AppState<S> {
    pub redis_url: String,
    pub horizon_url: String,
    /// How many status updates a slow subscriber may lag behind.
    pub broadcast_capacity: usize,
    /// Whether inserts go through the batch flusher.
    pub batching: bool,
    pub tenant_configs: HashMap<u128, TenantConfig<S>>,
}

/// The configurations by tenant. Of several for one tenant the last one counts.
pub open spec fn configs_by_tenant<S>(configs: Seq<TenantConfig<S>>) -> Map<u128, TenantConfig<S>>
    decreases configs.len(),
{
    if configs.len() == 0 {
        Map::empty()
    } else {
        configs_by_tenant(configs.drop_last()).insert(configs.last().tenant_id, configs.last())
    }
}

impl<S> AppState<S> {
    /// The settings that tests run with: local Redis, the Stellar test network, no batch
    /// flusher, and no tenants.
    pub fn test_new() -> (r: Self)
        ensures
            r.redis_url@ == "redis://localhost:6379"@,
            r.horizon_url@ == "https://horizon-testnet.stellar.org"@,
            r.broadcast_capacity == 100,
            !r.batching,
            r.tenant_configs@ == Map::<u128, TenantConfig<S>>::empty(),
    {
        AppState {
            redis_url: "redis://localhost:6379".to_owned(),
            horizon_url: "https://horizon-testnet.stellar.org".to_owned(),
            broadcast_capacity: 100,
            batching: false,
            tenant_configs: HashMap::new(),
        }
    }

    /// The configuration of a tenant, if it has one.
    pub fn get_tenant_config(&self, tenant_id: u128) -> (r: Option<TenantConfig<S>>) where S: Clone
        ensures
            match r {
                Some(config) => {
                    &&& self.tenant_configs@.dom().contains(tenant_id)
                    &&& config.tenant_id == self.tenant_configs@[tenant_id].tenant_id
                    &&& cloned(self.tenant_configs@[tenant_id].settings, config.settings)
                },
                None => !self.tenant_configs@.dom().contains(tenant_id),
            },
    {
        broadcast use vstd::std_specs::hash::group_hash_axioms;

        match self.tenant_configs.get(&tenant_id) {
            Some(config) => Some(config.clone()),
            None => None,
        }
    }

    /// Replaces the tenants' configurations by those that were read, or, where reading
    /// failed, keeps them and passes the failure on.
    pub fn load_tenant_configs<E>(&mut self, read: Result<Vec<TenantConfig<S>>, E>) -> (r: Result<
        (),
        E,
    >)
        ensures
            match read {
                Ok(configs) => r is Ok && final(self).tenant_configs@ == configs_by_tenant(configs@),
                Err(e) => r == Err::<(), E>(e) && final(self).tenant_configs@ == old(self).tenant_configs@,
            },
            final(self).redis_url == old(self).redis_url,
            final(self).horizon_url == old(self).horizon_url,
            final(self).broadcast_capacity == old(self).broadcast_capacity,
            final(self).batching == old(self).batching,
    {
        broadcast use vstd::std_specs::hash::group_hash_axioms;

        let configs = match read {
            Ok(configs) => configs,
            Err(e) => return Err(e),
        };
        self.tenant_configs.clear();
        let ghost start = *self;
        assert(configs@.take(0).len() == 0);
        for config in it: configs
            invariant
                it.seq() == configs@,
                self.tenant_configs@ == configs_by_tenant(configs@.take(it.index())),
                self.redis_url == start.redis_url,
                self.horizon_url == start.horizon_url,
                self.broadcast_capacity == start.broadcast_capacity,
                self.batching == start.batching,
        {
            let ghost i = it.index();
            assert(configs@.take(i + 1).drop_last() =~= configs@.take(i));
            self.tenant_configs.insert(config.tenant_id, config);
        }
        assert(configs@.take(configs@.len() as int) =~= configs@);
        Ok(())
    }
}

/// A tenant has a configuration exactly if one was read for it.
proof fn lemma_configured_iff_read<S>(configs: Seq<TenantConfig<S>>, tenant_id: u128)
    ensures
        configs_by_tenant(configs).dom().contains(tenant_id) <==> exists|i: int|
            0 <= i < configs.len() && (#[trigger] configs[i]).tenant_id == tenant_id,
    decreases configs.len(),
{
    if configs.len() > 0 {
        let before = configs.drop_last();
        lemma_configured_iff_read(before, tenant_id);
        if configs.last().tenant_id == tenant_id {
            assert(configs[configs.len() - 1].tenant_id == tenant_id);
        } else if exists|i: int|
            0 <= i < configs.len() && (#[trigger] configs[i]).tenant_id == tenant_id {
            let i = choose|i: int|
                0 <= i < configs.len() && (#[trigger] configs[i]).tenant_id == tenant_id;
            assert(before[i].tenant_id == tenant_id);
        } else {
            assert(forall|i: int| 0 <= i < before.len() ==> #[trigger] before[i] == configs[i]);
        }
    }
}

/// The configuration at position `i` is the last one read for the tenant.
pub open spec fn last_for<S>(configs: Seq<TenantConfig<S>>, tenant_id: u128, i: int) -> bool {
    &&& 0 <= i < configs.len()
    &&& configs[i].tenant_id == tenant_id
    &&& forall|j: int| i < j < configs.len() ==> (#[trigger] configs[j]).tenant_id != tenant_id
}

/// The last configuration read for a tenant counts.
proof fn lemma_last_counts<S>(configs: Seq<TenantConfig<S>>, tenant_id: u128, i: int)
    requires
        last_for(configs, tenant_id, i),
    ensures
        configs_by_tenant(configs)[tenant_id] == configs[i],
    decreases configs.len(),
{
    if i < configs.len() - 1 {
        let before = configs.drop_last();
        assert(configs[configs.len() - 1].tenant_id != tenant_id);
        assert(forall|j: int| i < j < before.len() ==> #[trigger] before[j] == configs[j]);
        lemma_last_counts(before, tenant_id, i);
    }
}

/// Looking up a tenant after loading finds the last configuration read for it, and finds
/// none exactly if none was read: nothing from before the loading is left.
#[verifier::spinoff_prover]
pub proof fn law_lookup_after_load<S>(configs: Seq<TenantConfig<S>>, tenant_id: u128)
    ensures
        configs_by_tenant(configs).dom().contains(tenant_id) <==> exists|i: int|
            0 <= i < configs.len() && (#[trigger] configs[i]).tenant_id == tenant_id,
        forall|i: int| #[trigger]
            last_for(configs, tenant_id, i) ==> configs_by_tenant(configs)[tenant_id] == configs[i],
{
    lemma_configured_iff_read(configs, tenant_id);
    assert forall|i: int| #[trigger] last_for(configs, tenant_id, i) implies configs_by_tenant(
        configs,
    )[tenant_id] == configs[i] by {
        lemma_last_counts(configs, tenant_id, i);
    }
}

/// Every configuration stands under the tenant whose it is.
pub proof fn law_configs_stand_under_their_tenant<S>(configs: Seq<TenantConfig<S>>, tenant_id: u128)
    requires
        configs_by_tenant(configs).dom().contains(tenant_id),
    ensures
        configs_by_tenant(configs)[tenant_id].tenant_id == tenant_id,
    decreases configs.len(),
{
    if configs.len() > 0 && configs.last().tenant_id != tenant_id {
        law_configs_stand_under_their_tenant(configs.drop_last(), tenant_id);
    }
}

} // verus!
