//! The registry of modules: it gathers their settings under their topics and
//! routes each incoming message to the modules whose topic it holds.
use vstd::prelude::*;

use crate::module::{pairs_view, ClientModule, Publish, PublishView, QoS, Reaction, ReactionView, Subscribe, SubscribeView};
use crate::state::State;
use crate::text::{occurs, occurs_in, trim_quotes, unquoted};

verus! {

/// Text key/value pairs.
pub type Pairs = Seq<(Seq<char>, Seq<char>)>;

/// No key stands twice.
pub open spec fn unique_keys(s: Pairs) -> bool {
    forall|i: int, j: int| 0 <= i < j < s.len() ==> s[i].0 != s[j].0
}

/// The map of a list of pairs, where a later pair wins over an earlier one.
pub open spec fn pairs_map(s: Pairs) -> Map<Seq<char>, Seq<char>>
    decreases s.len(),
{
    if s.len() == 0 {
        Map::empty()
    } else {
        pairs_map(s.drop_last()).insert(s.last().0, s.last().1)
    }
}

/// `m` with the pairs of `s` put in one after the other.
pub open spec fn insert_all(m: Map<Seq<char>, Seq<char>>, s: Pairs) -> Map<Seq<char>, Seq<char>>
    decreases s.len(),
{
    if s.len() == 0 {
        m
    } else {
        insert_all(m, s.drop_last()).insert(s.last().0, s.last().1)
    }
}

/// The key of a module's setting: `<topic>/<field>`.
pub open spec fn namespaced_key(topic: Seq<char>, field: Seq<char>) -> Seq<char> {
    topic + seq!['/'] + field
}

/// A module's settings with each field name put under its topic.
pub open spec fn namespaced(topic: Seq<char>, settings: Pairs) -> Pairs {
    settings.map_values(|p: (Seq<char>, Seq<char>)| (namespaced_key(topic, p.0), p.1))
}

/// The configuration that registering `ms`, in order, gives a new manager.
pub open spec fn registered_configs<M: ClientModule>(ms: Seq<M>) -> Map<Seq<char>, Seq<char>>
    decreases ms.len(),
{
    if ms.len() == 0 {
        Map::empty()
    } else {
        insert_all(
            registered_configs(ms.drop_last()),
            namespaced(ms.last().spec_topic(), ms.last().spec_settings()),
        )
    }
}

/// The retained message that publishes setting `key`.
pub open spec fn setting_message(key: Seq<char>, value: Seq<char>) -> PublishView {
    PublishView {
        topic: "settings/"@ + key,
        payload: unquoted(value),
        retain: true,
        qos: QoS::ExactlyOnce,
    }
}

/// The settings messages for `cfg`, in order, skipping empty values.
pub open spec fn settings_messages(cfg: Pairs) -> Seq<PublishView>
    decreases cfg.len(),
{
    if cfg.len() == 0 {
        Seq::empty()
    } else {
        let rest = settings_messages(cfg.drop_last());
        if cfg.last().1.len() == 0 {
            rest
        } else {
            rest.push(setting_message(cfg.last().0, cfg.last().1))
        }
    }
}

/// The subscription for a module's topic and everything under it.
pub open spec fn module_subscription(topic: Seq<char>) -> SubscribeView {
    SubscribeView { topic: topic + "/#"@, qos: QoS::ExactlyOnce }
}

/// The subscriptions for modules `ms`, one each, in order.
pub open spec fn module_subscriptions<M: ClientModule>(ms: Seq<M>) -> Seq<SubscribeView> {
    ms.map_values(|m: M| module_subscription(m.spec_topic()))
}

/// Subscriptions as plain values.
pub open spec fn subscribe_views(s: Seq<Subscribe>) -> Seq<SubscribeView> {
    s.map_values(|x: Subscribe| x@)
}

/// Publishes as plain values.
pub open spec fn publish_views(s: Seq<Publish>) -> Seq<PublishView> {
    s.map_values(|x: Publish| x@)
}

/// The indices below `n` of the modules whose topic occurs in `topic`, in order.
pub open spec fn matching_below<M: ClientModule>(ms: Seq<M>, topic: Seq<char>, n: int) -> Seq<usize>
    decreases n,
{
    if n <= 0 {
        Seq::empty()
    } else {
        let rest = matching_below(ms, topic, n - 1);
        if occurs_in(ms[n - 1].spec_topic(), topic) {
            rest.push((n - 1) as usize)
        } else {
            rest
        }
    }
}

/// The indices of the modules whose topic occurs in `topic`, in order.
pub open spec fn matching<M: ClientModule>(ms: Seq<M>, topic: Seq<char>) -> Seq<usize> {
    matching_below(ms, topic, ms.len() as int)
}

/// The keys of a list of pairs.
pub open spec fn pairs_keys(s: Pairs) -> Set<Seq<char>> {
    Set::new(|k: Seq<char>| exists|i: int| 0 <= i < s.len() && s[i].0 == k)
}

/// The namespaced settings keys of modules `ms`, all together.
pub open spec fn namespaced_keys<M: ClientModule>(ms: Seq<M>) -> Set<Seq<char>>
    decreases ms.len(),
{
    if ms.len() == 0 {
        Set::empty()
    } else {
        namespaced_keys(ms.drop_last()).union(
            pairs_keys(namespaced(ms.last().spec_topic(), ms.last().spec_settings())),
        )
    }
}

proof fn lemma_insert_all_keys(m: Map<Seq<char>, Seq<char>>, s: Pairs)
    ensures
        insert_all(m, s).dom() == m.dom().union(pairs_keys(s)),
    decreases s.len(),
{
    if s.len() > 0 {
        lemma_insert_all_keys(m, s.drop_last());
        assert forall|k: Seq<char>| pairs_keys(s).contains(k) implies m.dom().union(
            pairs_keys(s.drop_last()),
        ).insert(s.last().0).contains(k) by {
            let i = choose|i: int| 0 <= i < s.len() && s[i].0 == k;
            if i < s.len() - 1 {
                assert(s.drop_last()[i].0 == k);
            }
        }
        assert forall|k: Seq<char>| pairs_keys(s.drop_last()).contains(k) implies pairs_keys(s).contains(k) by {
            let i = choose|i: int| 0 <= i < s.drop_last().len() && s.drop_last()[i].0 == k;
            assert(s[i].0 == k);
        }
        assert(pairs_keys(s).contains(s.last().0)) by {
            assert(s[s.len() - 1].0 == s.last().0);
        }
        assert(insert_all(m, s).dom() =~= m.dom().union(pairs_keys(s)));
    }
}

/// Registering modules one after the other gives a configuration whose keys
/// are exactly the union of the modules' namespaced settings keys.
pub proof fn lemma_registered_keys<M: ClientModule>(ms: Seq<M>)
    ensures
        registered_configs(ms).dom() == namespaced_keys(ms),
    decreases ms.len(),
{
    if ms.len() > 0 {
        lemma_registered_keys(ms.drop_last());
        lemma_insert_all_keys(
            registered_configs(ms.drop_last()),
            namespaced(ms.last().spec_topic(), ms.last().spec_settings()),
        );
    } else {
        assert(registered_configs(ms).dom() =~= namespaced_keys(ms));
    }
}

proof fn lemma_matching_prefix<M: ClientModule>(ms: Seq<M>, m: M, topic: Seq<char>, n: int)
    requires
        n <= ms.len(),
    ensures
        matching_below(ms.push(m), topic, n) == matching_below(ms, topic, n),
    decreases n,
{
    if n > 0 {
        lemma_matching_prefix(ms, m, topic, n - 1);
        assert(ms.push(m)[n - 1] == ms[n - 1]);
    }
}

/// Registering a module keeps every module registered before, sharing its
/// topic or not, and a message whose topic holds the new module's topic
/// reaches it as well as all the earlier ones it reached.
pub proof fn lemma_register_adds_handler<M: ClientModule>(ms: Seq<M>, m: M, topic: Seq<char>)
    ensures
        matching(ms.push(m), topic) == if occurs_in(m.spec_topic(), topic) {
            matching(ms, topic).push(ms.len() as usize)
        } else {
            matching(ms, topic)
        },
{
    lemma_matching_prefix(ms, m, topic, ms.len() as int);
    assert(ms.push(m)[ms.len() as int] == m);
}

proof fn lemma_pairs_map_update(s: Pairs, j: int, v: Seq<char>)
    requires
        unique_keys(s),
        0 <= j < s.len(),
    ensures
        pairs_map(s.update(j, (s[j].0, v))) == pairs_map(s).insert(s[j].0, v),
    decreases s.len(),
{
    let t = s.update(j, (s[j].0, v));
    if j == s.len() - 1 {
        assert(t.drop_last() =~= s.drop_last());
        assert(pairs_map(t) =~= pairs_map(s).insert(s[j].0, v));
    } else {
        assert(t.drop_last() =~= s.drop_last().update(j, (s[j].0, v)));
        lemma_pairs_map_update(s.drop_last(), j, v);
        assert(s.last().0 != s[j].0);
        assert(pairs_map(t) =~= pairs_map(s).insert(s[j].0, v));
    }
}

proof fn lemma_pairs_map_has(s: Pairs, j: int)
    requires
        unique_keys(s),
        0 <= j < s.len(),
    ensures
        pairs_map(s).contains_key(s[j].0),
        pairs_map(s)[s[j].0] == s[j].1,
    decreases s.len(),
{
    if j < s.len() - 1 {
        lemma_pairs_map_has(s.drop_last(), j);
    }
}

proof fn lemma_pairs_map_keys(s: Pairs, k: Seq<char>)
    requires
        pairs_map(s).contains_key(k),
    ensures
        exists|j: int| 0 <= j < s.len() && s[j].0 == k,
    decreases s.len(),
{
    if s.last().0 != k {
        lemma_pairs_map_keys(s.drop_last(), k);
        let j = choose|j: int| 0 <= j < s.drop_last().len() && s.drop_last()[j].0 == k;
        assert(s[j].0 == k);
    }
}

proof fn lemma_settings_messages_nonempty(cfg: Pairs, i: int)
    requires
        0 <= i < settings_messages(cfg).len(),
    ensures
        exists|j: int|
            0 <= j < cfg.len() && cfg[j].1.len() > 0 && settings_messages(cfg)[i] == setting_message(
                cfg[j].0,
                cfg[j].1,
            ),
    decreases cfg.len(),
{
    let rest = settings_messages(cfg.drop_last());
    if i < rest.len() {
        lemma_settings_messages_nonempty(cfg.drop_last(), i);
        let j = choose|j: int|
            0 <= j < cfg.drop_last().len() && cfg.drop_last()[j].1.len() > 0 && rest[i]
                == setting_message(cfg.drop_last()[j].0, cfg.drop_last()[j].1);
        assert(cfg[j] == cfg.drop_last()[j]);
    } else {
        assert(cfg[cfg.len() - 1] == cfg.last());
    }
}

proof fn lemma_settings_messages_complete(cfg: Pairs, j: int)
    requires
        0 <= j < cfg.len(),
        cfg[j].1.len() > 0,
    ensures
        exists|i: int|
            0 <= i < settings_messages(cfg).len() && settings_messages(cfg)[i] == setting_message(
                cfg[j].0,
                cfg[j].1,
            ),
    decreases cfg.len(),
{
    let rest = settings_messages(cfg.drop_last());
    if j < cfg.len() - 1 {
        lemma_settings_messages_complete(cfg.drop_last(), j);
        let i = choose|i: int|
            0 <= i < rest.len() && rest[i] == setting_message(cfg.drop_last()[j].0, cfg.drop_last()[j].1);
        assert(settings_messages(cfg)[i] == rest[i]);
    } else {
        assert(settings_messages(cfg)[rest.len() as int] == setting_message(cfg[j].0, cfg[j].1));
    }
}

proof fn lemma_settings_messages_cover(cfg: Pairs)
    requires
        unique_keys(cfg),
    ensures
        forall|k: Seq<char>|
            #![trigger pairs_map(cfg)[k]]
            pairs_map(cfg).contains_key(k) && pairs_map(cfg)[k].len() > 0 ==> exists|i: int|
                0 <= i < settings_messages(cfg).len() && settings_messages(cfg)[i] == setting_message(
                    k,
                    pairs_map(cfg)[k],
                ),
{
    assert forall|k: Seq<char>|
        #![trigger pairs_map(cfg)[k]]
        pairs_map(cfg).contains_key(k) && pairs_map(cfg)[k].len() > 0 implies exists|i: int|
            0 <= i < settings_messages(cfg).len() && settings_messages(cfg)[i] == setting_message(
                k,
                pairs_map(cfg)[k],
            ) by {
        lemma_pairs_map_keys(cfg, k);
        let j = choose|j: int| 0 <= j < cfg.len() && cfg[j].0 == k;
        lemma_pairs_map_has(cfg, j);
        lemma_settings_messages_complete(cfg, j);
    }
}

/// Owns the registered modules, in registration order, and the union of
/// their settings, each keyed `<module topic>/<field>`.
pub struct ModuleManager<M: ClientModule> {
    modules: Vec<M>,
    configs: Vec<(String, String)>,
}

impl<M: ClientModule> ModuleManager<M> {
    /// The registered modules, in registration order.
    pub closed spec fn spec_modules(&self) -> Seq<M> {
        self.modules@
    }

    /// The settings entries, each key once.
    pub closed spec fn spec_configs(&self) -> Pairs {
        pairs_view(self.configs@)
    }

    /// The settings as a map from namespaced key to value.
    pub open spec fn config_map(&self) -> Map<Seq<char>, Seq<char>> {
        pairs_map(self.spec_configs())
    }

    /// Each settings key is held once.
    pub open spec fn wf(&self) -> bool {
        unique_keys(self.spec_configs())
    }

    /// A manager with no modules and no settings.
    pub fn new() -> (r: Self)
        ensures
            r.wf(),
            r.spec_modules() == Seq::<M>::empty(),
            r.spec_configs() == Pairs::empty(),
            r.config_map() == Map::<Seq<char>, Seq<char>>::empty(),
    {
        let r = ModuleManager { modules: Vec::new(), configs: Vec::new() };
        assert(r.spec_configs() =~= Pairs::empty());
        r
    }

    /// Sets one settings entry, in place where its key is already held,
    /// else at the end.
    fn put_config(&mut self, key: String, value: String)
        requires
            old(self).wf(),
        ensures
            final(self).wf(),
            final(self).config_map() == old(self).config_map().insert(key@, value@),
            final(self).spec_modules() == old(self).spec_modules(),
    {
        let ghost before = self.spec_configs();
        let mut j: usize = 0;
        while j < self.configs.len()
            invariant
                self.spec_configs() == before,
                self.modules@ == old(self).modules@,
                before == old(self).spec_configs(),
                unique_keys(before),
                j <= self.configs@.len(),
                forall|t: int| 0 <= t < j ==> before[t].0 != key@,
            decreases self.configs@.len() - j,
        {
            if self.configs[j].0 == key {
                proof {
                    lemma_pairs_map_update(before, j as int, value@);
                }
                self.configs.set(j, (key, value));
                assert(self.spec_configs() =~= before.update(j as int, (before[j as int].0, value@)));
                return;
            }
            j = j + 1;
        }
        self.configs.push((key, value));
        assert(self.spec_configs() =~= before.push((key@, value@)));
        assert(self.spec_configs().drop_last() =~= before);
    }

    /// Adds `module` after those registered before, and merges its
    /// settings, each keyed `<topic>/<field>`, into the configuration; a
    /// key already held takes the new value. Modules sharing a topic are
    /// all kept.
    pub fn register_module(&mut self, module: M)
        requires
            old(self).wf(),
        ensures
            final(self).wf(),
            final(self).spec_modules() == old(self).spec_modules().push(module),
            final(self).config_map() == insert_all(
                old(self).config_map(),
                namespaced(module.spec_topic(), module.spec_settings()),
            ),
    {
        let topic = module.topic();
        let settings = module.settings();
        let ghost all = namespaced(topic@, pairs_view(settings@));
        let ghost start = self.config_map();
        let ghost mods = self.spec_modules();
        let mut i: usize = 0;
        while i < settings.len()
            invariant
                self.wf(),
                self.spec_modules() == mods,
                all == namespaced(topic@, pairs_view(settings@)),
                i <= settings@.len(),
                self.config_map() == insert_all(start, all.take(i as int)),
            decreases settings@.len() - i,
        {
            let mut key = topic.clone();
            key.append("/");
            key.append(settings[i].0.as_str());
            let value = settings[i].1.clone();
            self.put_config(key, value);
            proof {
                reveal_strlit("/");
                assert(all.take(i + 1).drop_last() =~= all.take(i as int));
                assert(all[i as int].0 =~= key@);
            }
            i = i + 1;
        }
        assert(all.take(i as int) =~= all);
        self.modules.push(module);
    }

    /// The indices of the modules that a message on `topic` goes to: those
    /// whose topic occurs anywhere in `topic`, in registration order.
    pub fn matching_modules(&self, topic: &str) -> (r: Vec<usize>)
        ensures
            r@ == matching(self.spec_modules(), topic@),
    {
        let mut r: Vec<usize> = Vec::new();
        let mut i: usize = 0;
        while i < self.modules.len()
            invariant
                i <= self.modules@.len(),
                r@ == matching_below(self.spec_modules(), topic@, i as int),
            decreases self.modules@.len() - i,
        {
            let t = self.modules[i].topic();
            if occurs(t.as_str(), topic) {
                r.push(i);
            }
            i = i + 1;
        }
        r
    }

    /// Hands a message on `topic` to the module at `index`; the caller
    /// publishes what it asks for and settles the shared state with the
    /// outcome.
    pub fn handle_message(&self, index: usize, topic: &str, payload: &str, state: &mut State) -> (r: Reaction)
        requires
            index < self.spec_modules().len(),
        ensures
            (*final(state), r@) == self.spec_modules()[index as int].spec_handle(topic@, payload@, *old(state)),
    {
        self.modules[index].handle(topic, payload, state)
    }

    /// What to send once the transport is connected: every non-empty
    /// setting as a retained message on `settings/<key>`, its value without
    /// the double quotes around it; then a subscription to each module's topic and all
    /// below it. Both with exactly-once delivery.
    pub fn initialize(&self) -> (r: (Vec<Publish>, Vec<Subscribe>))
        ensures
            publish_views(r.0@) == settings_messages(self.spec_configs()),
            subscribe_views(r.1@) == module_subscriptions(self.spec_modules()),
            forall|i: int|
                0 <= i < r.0@.len() ==> exists|j: int|
                    0 <= j < self.spec_configs().len() && self.spec_configs()[j].1.len() > 0
                        && #[trigger] r.0@[i]@ == setting_message(
                        self.spec_configs()[j].0,
                        self.spec_configs()[j].1,
                    ),
            self.wf() ==> forall|k: Seq<char>|
                #![trigger self.config_map()[k]]
                self.config_map().contains_key(k) && self.config_map()[k].len() > 0 ==> exists|i: int|
                    0 <= i < r.0@.len() && publish_views(r.0@)[i] == setting_message(k, self.config_map()[k]),
    {
        let mut pubs: Vec<Publish> = Vec::new();
        let mut i: usize = 0;
        while i < self.configs.len()
            invariant
                i <= self.configs@.len(),
                publish_views(pubs@) == settings_messages(self.spec_configs().take(i as int)),
            decreases self.configs@.len() - i,
        {
            let ghost cfg = self.spec_configs().take(i + 1);
            assert(cfg.drop_last() =~= self.spec_configs().take(i as int));
            let value = &self.configs[i].1;
            if value.as_str().unicode_len() > 0 {
                let mut topic = String::from_str("settings/");
                proof {
                    reveal_strlit("settings/");
                }
                topic.append(self.configs[i].0.as_str());
                let payload = trim_quotes(value.as_str());
                pubs.push(Publish { topic, payload, retain: true, qos: QoS::ExactlyOnce });
            }
            i = i + 1;
            assert(publish_views(pubs@) =~= settings_messages(self.spec_configs().take(i as int)));
        }
        assert(self.spec_configs().take(i as int) =~= self.spec_configs());
        let mut subs: Vec<Subscribe> = Vec::new();
        let mut k: usize = 0;
        while k < self.modules.len()
            invariant
                k <= self.modules@.len(),
                subs@.len() == k,
                subscribe_views(subs@) == module_subscriptions(self.spec_modules().take(k as int)),
            decreases self.modules@.len() - k,
        {
            let ghost prev = subs@;
            let mut topic = self.modules[k].topic();
            topic.append("/#");
            proof {
                reveal_strlit("/#");
            }
            let sub = Subscribe { topic, qos: QoS::ExactlyOnce };
            assert(sub@ == module_subscription(self.spec_modules()[k as int].spec_topic()));
            subs.push(sub);
            assert(subs@ == prev.push(sub));
            assert(self.spec_modules().take(k + 1).drop_last() =~= self.spec_modules().take(k as int));
            proof {
                let ms = self.spec_modules();
                assert forall|t: int| 0 <= t < k + 1 implies #[trigger] subscribe_views(subs@)[t]
                    == module_subscriptions(ms.take(k + 1))[t] by {
                    if t < k {
                        assert(subscribe_views(prev)[t] == module_subscriptions(ms.take(k as int))[t]);
                    }
                }
            }
            k = k + 1;
            assert(subscribe_views(subs@) =~= module_subscriptions(self.spec_modules().take(k as int)));
        }
        assert(self.spec_modules().take(k as int) =~= self.spec_modules());
        proof {
            assert forall|i: int| 0 <= i < pubs@.len() implies exists|j: int|
                0 <= j < self.spec_configs().len() && self.spec_configs()[j].1.len() > 0
                    && #[trigger] pubs@[i]@ == setting_message(
                    self.spec_configs()[j].0,
                    self.spec_configs()[j].1,
                ) by {
                assert(pubs@[i]@ == publish_views(pubs@)[i]);
                lemma_settings_messages_nonempty(self.spec_configs(), i);
            }
            if self.wf() {
                let cfg = self.spec_configs();
                lemma_settings_messages_cover(cfg);
                assert(publish_views(pubs@).len() == pubs@.len());
                assert forall|k: Seq<char>|
                    #![trigger self.config_map()[k]]
                    self.config_map().contains_key(k) && self.config_map()[k].len() > 0 implies exists|i: int|
                        0 <= i < pubs@.len() && publish_views(pubs@)[i] == setting_message(k, self.config_map()[k]) by {
                    assert(pairs_map(cfg)[k] == self.config_map()[k]);
                }
            }
        }
        let ghost sent = pubs@;
        let r = (pubs, subs);
        assert(r.0@ == sent);
        r
    }

    /// The number of registered modules.
    pub fn module_count(&self) -> (r: usize)
        ensures
            r == self.spec_modules().len(),
    {
        self.modules.len()
    }

    /// The number of settings entries.
    pub fn config_count(&self) -> (r: usize)
        requires
            self.wf(),
        ensures
            r == self.config_map().dom().len(),
    {
        proof {
            lemma_unique_map_len(self.spec_configs());
        }
        self.configs.len()
    }

    /// Whether a setting is held under `key`.
    pub fn contains_config(&self, key: &str) -> (r: bool)
        requires
            self.wf(),
        ensures
            r == self.config_map().contains_key(key@),
    {
        let k = String::from_str(key);
        let mut j: usize = 0;
        while j < self.configs.len()
            invariant
                j <= self.configs@.len(),
                unique_keys(self.spec_configs()),
                k@ == key@,
                forall|t: int| 0 <= t < j ==> self.spec_configs()[t].0 != key@,
            decreases self.configs@.len() - j,
        {
            if self.configs[j].0 == k {
                proof {
                    lemma_pairs_map_has(self.spec_configs(), j as int);
                }
                return true;
            }
            j = j + 1;
        }
        proof {
            if self.config_map().contains_key(key@) {
                lemma_pairs_map_keys(self.spec_configs(), key@);
            }
        }
        false
    }
}

proof fn lemma_unique_map_len(s: Pairs)
    requires
        unique_keys(s),
    ensures
        pairs_map(s).dom().finite(),
        pairs_map(s).dom().len() == s.len(),
    decreases s.len(),
{
    if s.len() > 0 {
        lemma_unique_map_len(s.drop_last());
        if pairs_map(s.drop_last()).contains_key(s.last().0) {
            lemma_pairs_map_keys(s.drop_last(), s.last().0);
        }
    }
}

} // verus!
