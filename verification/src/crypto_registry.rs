//! The crypto runtime: the default key location (service and account) and
//! the contexts registered for each secure field, keyed by model and field tag.

use std::sync::Arc;
use vstd::prelude::*;

use crate::crypto::{CryptoContext, CryptoError, CryptoTag, SensitiveFieldMetadata, SensitiveFieldTag};
use crate::text::{owned, str_eq};

verus! {

/// Process-wide default crypto strategy used by generated sensitive metadata.
#[derive(Debug, Clone, PartialEq, Eq)]
pub struct DefaultCryptoConfig {
    pub service: String,
    pub account: String,
}

/// The built-in default service name, `appdb`.
pub open spec fn builtin_service() -> Seq<char> {
    seq!['a', 'p', 'p', 'd', 'b']
}

/// The built-in default account name, `master-sensitive`.
pub open spec fn builtin_account() -> Seq<char> {
    seq!['m', 'a', 's', 't', 'e', 'r', '-', 's', 'e', 'n', 's', 'i', 't', 'i', 'v', 'e']
}

fn builtin_service_text() -> (out: String)
    ensures
        out@ == builtin_service(),
{
    let mut out = String::new();
    crate::text::push_char(&mut out, 'a');
    crate::text::push_char(&mut out, 'p');
    crate::text::push_char(&mut out, 'p');
    crate::text::push_char(&mut out, 'd');
    crate::text::push_char(&mut out, 'b');
    assert(out@ =~= builtin_service());
    out
}

fn builtin_account_text() -> (out: String)
    ensures
        out@ == builtin_account(),
{
    let chars: [char; 16] = [
        'm',
        'a',
        's',
        't',
        'e',
        'r',
        '-',
        's',
        'e',
        'n',
        's',
        'i',
        't',
        'i',
        'v',
        'e',
    ];
    let out = crate::text::chars_to_string(&chars);
    assert(chars@ =~= builtin_account());
    out
}

/// The key under which a context is registered: model tag and field tag.
pub open spec fn tag_key(tag: CryptoTag) -> (Seq<char>, Seq<char>) {
    (tag.model@, tag.field@)
}

/// The key of the secure field that a piece of metadata describes.
pub open spec fn meta_key(meta: SensitiveFieldMetadata) -> (Seq<char>, Seq<char>) {
    (meta.model_tag@, meta.field_tag@)
}

/// The keys of the secure fields that metadata lists.
pub open spec fn meta_keys(fields: Seq<SensitiveFieldMetadata>) -> Set<(Seq<char>, Seq<char>)> {
    Set::new(
        |k: (Seq<char>, Seq<char>)| exists|i: int| 0 <= i < fields.len() && meta_key(fields[i]) == k,
    )
}

/// What resolving a tag against registered contexts gives: the context's key
/// bytes, or `ResolverNotFound` naming the tag.
pub open spec fn resolution(contexts: Map<(Seq<char>, Seq<char>), Seq<u8>>, tag: CryptoTag) -> Result<
    Seq<u8>,
    CryptoError,
> {
    if contexts.contains_key(tag_key(tag)) {
        Ok(contexts[tag_key(tag)])
    } else {
        Err(CryptoError::ResolverNotFound { model_tag: tag.model, field_tag: tag.field })
    }
}

/// The crypto runtime: default key location, registered contexts, and the
/// models whose generated secure fields have been registered automatically.
pub struct CryptoRuntime {
    defaults: DefaultCryptoConfig,
    contexts: Vec<(CryptoTag, CryptoContext)>,
    ready: Vec<&'static str>,
}

impl CryptoRuntime {
    /// No two registered contexts share a key.
    pub closed spec fn wf(&self) -> bool {
        forall|i: int, j: int|
            0 <= i < j < self.contexts@.len() ==> tag_key(self.contexts@[i].0) != tag_key(
                self.contexts@[j].0,
            )
    }

    /// The default service of the key location.
    pub closed spec fn service(&self) -> Seq<char> {
        self.defaults.service@
    }

    /// The default account of the key location.
    pub closed spec fn account(&self) -> Seq<char> {
        self.defaults.account@
    }

    /// Registered contexts, as key bytes by model and field tag.
    pub closed spec fn contexts(&self) -> Map<(Seq<char>, Seq<char>), Seq<u8>> {
        Map::new(
            |k: (Seq<char>, Seq<char>)|
                exists|i: int| 0 <= i < self.contexts@.len() && tag_key(self.contexts@[i].0) == k,
            |k: (Seq<char>, Seq<char>)|
                self.contexts@[choose|i: int|
                    0 <= i < self.contexts@.len() && tag_key(self.contexts@[i].0) == k].1@,
        )
    }

    /// Models whose generated secure fields have been registered.
    pub closed spec fn ready_models(&self) -> Set<Seq<char>> {
        Set::new(|m: Seq<char>| exists|i: int| 0 <= i < self.ready@.len() && self.ready@[i]@ == m)
    }

    /// A runtime with the built-in defaults and nothing registered.
    pub fn new() -> (out: Self)
        ensures
            out.wf(),
            out.service() == builtin_service(),
            out.account() == builtin_account(),
            out.contexts() == Map::<(Seq<char>, Seq<char>), Seq<u8>>::empty(),
            out.ready_models() == Set::<Seq<char>>::empty(),
    {
        let out = CryptoRuntime {
            defaults: DefaultCryptoConfig {
                service: builtin_service_text(),
                account: builtin_account_text(),
            },
            contexts: Vec::new(),
            ready: Vec::new(),
        };
        assert(out.contexts() =~= Map::<(Seq<char>, Seq<char>), Seq<u8>>::empty());
        assert(out.ready_models() =~= Set::<Seq<char>>::empty());
        out
    }

    fn position(&self, model: &str, field: &str) -> (res: Option<usize>)
        ensures
            match res {
                Some(i) => i < self.contexts@.len() && tag_key(self.contexts@[i as int].0) == (
                    model@,
                    field@,
                ),
                None => forall|i: int|
                    0 <= i < self.contexts@.len() ==> tag_key(self.contexts@[i].0) != (
                        model@,
                        field@,
                    ),
            },
    {
        let n = self.contexts.len();
        let mut i: usize = 0;
        while i < n
            invariant
                n == self.contexts@.len(),
                i <= n,
                forall|j: int|
                    0 <= j < i ==> tag_key(self.contexts@[j].0) != (model@, field@),
            decreases n - i,
        {
            let t = self.contexts[i].0;
            if str_eq(t.model, model) && str_eq(t.field, field) {
                return Some(i);
            }
            i = i + 1;
        }
        None
    }

    proof fn lemma_lookup_at(&self, i: int)
        requires
            self.wf(),
            0 <= i < self.contexts@.len(),
        ensures
            self.contexts().contains_key(tag_key(self.contexts@[i].0)),
            self.contexts()[tag_key(self.contexts@[i].0)] == self.contexts@[i].1@,
    {
        let k = tag_key(self.contexts@[i].0);
        let c = choose|j: int| 0 <= j < self.contexts@.len() && tag_key(self.contexts@[j].0) == k;
        if c != i {
            if c < i {
                assert(tag_key(self.contexts@[c].0) != tag_key(self.contexts@[i].0));
            } else {
                assert(tag_key(self.contexts@[i].0) != tag_key(self.contexts@[c].0));
            }
        }
    }

    /// Registers a context under a tag, replacing any context already there.
    fn put(&mut self, tag: CryptoTag, context: CryptoContext)
        requires
            old(self).wf(),
        ensures
            final(self).wf(),
            final(self).contexts() == old(self).contexts().insert(tag_key(tag), context@),
            final(self).defaults == old(self).defaults,
            final(self).ready == old(self).ready,
    {
        let ghost before = self.contexts@;
        match self.position(tag.model, tag.field) {
            Some(i) => {
                self.contexts.set(i, (tag, context));
                proof {
                    let after = self.contexts@;
                    assert(self.wf()) by {
                        assert forall|a: int, b: int|
                            0 <= a < b < after.len() implies tag_key(after[a].0) != tag_key(
                                after[b].0,
                            ) by {
                            assert(tag_key(after[a].0) == tag_key(before[a].0));
                            assert(tag_key(after[b].0) == tag_key(before[b].0));
                        }
                    }
                    assert forall|k: (Seq<char>, Seq<char>)|
                        #[trigger] self.contexts().contains_key(k) == old(self).contexts().insert(
                            tag_key(tag),
                            context@,
                        ).contains_key(k) by {
                        if old(self).contexts().contains_key(k) {
                            let j = choose|j: int|
                                0 <= j < before.len() && tag_key(before[j].0) == k;
                            assert(tag_key(after[j].0) == tag_key(before[j].0));
                        }
                        if k == tag_key(tag) {
                            assert(tag_key(after[i as int].0) == k);
                        }
                        if self.contexts().contains_key(k) {
                            let j = choose|j: int|
                                0 <= j < after.len() && tag_key(after[j].0) == k;
                            assert(tag_key(after[j].0) == tag_key(before[j].0));
                        }
                    }
                    assert forall|k: (Seq<char>, Seq<char>)| #[trigger]
                        self.contexts().contains_key(k) implies self.contexts()[k] == old(
                        self,
                    ).contexts().insert(tag_key(tag), context@)[k] by {
                        let j = choose|j: int| 0 <= j < after.len() && tag_key(after[j].0) == k;
                        self.lemma_lookup_at(j);
                        if j != i {
                            old(self).lemma_lookup_at(j);
                            assert(after[j] == before[j]);
                        }
                    }
                    assert(self.contexts() =~= old(self).contexts().insert(tag_key(tag), context@));
                }
            },
            None => {
                self.contexts.push((tag, context));
                proof {
                    let after = self.contexts@;
                    assert forall|k: (Seq<char>, Seq<char>)|
                        #[trigger] self.contexts().contains_key(k) == old(self).contexts().insert(
                            tag_key(tag),
                            context@,
                        ).contains_key(k) by {
                        if old(self).contexts().contains_key(k) {
                            let j = choose|j: int|
                                0 <= j < before.len() && tag_key(before[j].0) == k;
                            assert(after[j] == before[j]);
                        }
                        if k == tag_key(tag) {
                            assert(tag_key(after[before.len() as int].0) == k);
                        }
                        if self.contexts().contains_key(k) {
                            let j = choose|j: int|
                                0 <= j < after.len() && tag_key(after[j].0) == k;
                            if j < before.len() {
                                assert(after[j] == before[j]);
                            }
                        }
                    }
                    assert forall|k: (Seq<char>, Seq<char>)| #[trigger]
                        self.contexts().contains_key(k) implies self.contexts()[k] == old(
                        self,
                    ).contexts().insert(tag_key(tag), context@)[k] by {
                        let j = choose|j: int| 0 <= j < after.len() && tag_key(after[j].0) == k;
                        self.lemma_lookup_at(j);
                        if j < before.len() {
                            assert(after[j] == before[j]);
                            old(self).lemma_lookup_at(j);
                        }
                    }
                    assert(self.contexts() =~= old(self).contexts().insert(tag_key(tag), context@));
                }
            },
        }
    }

    fn lookup(&self, model: &str, field: &str) -> (res: Option<CryptoContext>)
        requires
            self.wf(),
        ensures
            self.contexts().contains_key((model@, field@)) <==> res is Some,
            res matches Some(c) ==> c@ == self.contexts()[(model@, field@)],
    {
        match self.position(model, field) {
            Some(i) => {
                proof {
                    self.lemma_lookup_at(i as int);
                }
                Some(self.contexts[i].1)
            },
            None => None,
        }
    }

    fn is_ready(&self, model: &str) -> (res: bool)
        ensures
            res == self.ready_models().contains(model@),
    {
        let n = self.ready.len();
        let mut i: usize = 0;
        while i < n
            invariant
                n == self.ready@.len(),
                i <= n,
                forall|j: int| 0 <= j < i ==> self.ready@[j]@ != model@,
            decreases n - i,
        {
            if str_eq(self.ready[i], model) {
                return true;
            }
            i = i + 1;
        }
        false
    }

    fn mark_ready(&mut self, model: &'static str)
        ensures
            final(self).ready_models() == old(self).ready_models().insert(model@),
            final(self).contexts == old(self).contexts,
            final(self).defaults == old(self).defaults,
    {
        let ghost before = self.ready@;
        self.ready.push(model);
        proof {
            let after = self.ready@;
            assert forall|m: Seq<char>|
                #[trigger] self.ready_models().contains(m) == old(self).ready_models().insert(
                    model@,
                ).contains(m) by {
                if old(self).ready_models().contains(m) {
                    let j = choose|j: int| 0 <= j < before.len() && before[j]@ == m;
                    assert(after[j] == before[j]);
                }
                if m == model@ {
                    assert(after[before.len() as int]@ == m);
                }
                if self.ready_models().contains(m) {
                    let j = choose|j: int| 0 <= j < after.len() && after[j]@ == m;
                    if j < before.len() {
                        assert(after[j] == before[j]);
                    }
                }
            }
            assert(self.ready_models() =~= old(self).ready_models().insert(model@));
        }
    }
}

/// Returns the current default crypto service/account pair.
pub fn default_crypto_config(runtime: &CryptoRuntime) -> (out: DefaultCryptoConfig)
    ensures
        out.service@ == runtime.service(),
        out.account@ == runtime.account(),
{
    DefaultCryptoConfig {
        service: owned(runtime.defaults.service.as_str()),
        account: owned(runtime.defaults.account.as_str()),
    }
}

/// Replaces the default crypto service/account pair.
pub fn set_default_crypto_config(runtime: &mut CryptoRuntime, service: String, account: String)
    requires
        old(runtime).wf(),
    ensures
        final(runtime).wf(),
        final(runtime).service() == service@,
        final(runtime).account() == account@,
        final(runtime).contexts() == old(runtime).contexts(),
        final(runtime).ready_models() == old(runtime).ready_models(),
{
    runtime.defaults = DefaultCryptoConfig { service, account };
}

/// Sets only the default crypto service, preserving the current default account.
pub fn set_default_crypto_service(runtime: &mut CryptoRuntime, service: String)
    requires
        old(runtime).wf(),
    ensures
        final(runtime).wf(),
        final(runtime).service() == service@,
        final(runtime).account() == old(runtime).account(),
        final(runtime).contexts() == old(runtime).contexts(),
        final(runtime).ready_models() == old(runtime).ready_models(),
{
    runtime.defaults.service = service;
}

/// Sets only the default crypto account, preserving the current default service.
pub fn set_default_crypto_account(runtime: &mut CryptoRuntime, account: String)
    requires
        old(runtime).wf(),
    ensures
        final(runtime).wf(),
        final(runtime).service() == old(runtime).service(),
        final(runtime).account() == account@,
        final(runtime).contexts() == old(runtime).contexts(),
        final(runtime).ready_models() == old(runtime).ready_models(),
{
    runtime.defaults.account = account;
}

/// Resets the crypto defaults back to the built-in `appdb` / `master-sensitive`.
pub fn reset_default_crypto_config(runtime: &mut CryptoRuntime)
    requires
        old(runtime).wf(),
    ensures
        final(runtime).wf(),
        final(runtime).service() == builtin_service(),
        final(runtime).account() == builtin_account(),
        final(runtime).contexts() == old(runtime).contexts(),
        final(runtime).ready_models() == old(runtime).ready_models(),
{
    set_default_crypto_config(runtime, builtin_service_text(), builtin_account_text());
}

/// Registers a crypto context for a concrete model/field tag pair, replacing
/// any context registered for it before.
pub fn register_crypto_context(runtime: &mut CryptoRuntime, tag: CryptoTag, context: CryptoContext)
    requires
        old(runtime).wf(),
    ensures
        final(runtime).wf(),
        final(runtime).contexts() == old(runtime).contexts().insert(tag_key(tag), context@),
        final(runtime).ready_models() == old(runtime).ready_models(),
        final(runtime).service() == old(runtime).service(),
        final(runtime).account() == old(runtime).account(),
{
    runtime.put(tag, context);
}

/// Registers a crypto context for the generated tag of one secure field.
pub fn register_crypto_context_for<Tag: SensitiveFieldTag>(
    runtime: &mut CryptoRuntime,
    context: CryptoContext,
)
    requires
        old(runtime).wf(),
    ensures
        final(runtime).wf(),
        exists|model: &'static str, field: &'static str|
            call_ensures(Tag::model_tag, (), model) && call_ensures(Tag::field_tag, (), field)
                && final(runtime).contexts() == old(runtime).contexts().insert(
                (model@, field@),
                context@,
            ),
        final(runtime).ready_models() == old(runtime).ready_models(),
        final(runtime).service() == old(runtime).service(),
        final(runtime).account() == old(runtime).account(),
{
    let model_tag = Tag::model_tag;
    let field_tag = Tag::field_tag;
    let model = model_tag();
    let field = field_tag();
    let tag = CryptoTag::new(model, field);
    register_crypto_context(runtime, tag, context);
}

/// Removes all registered crypto contexts and forgets which models were
/// registered automatically; the defaults stay.
pub fn clear_crypto_context_registry(runtime: &mut CryptoRuntime)
    requires
        old(runtime).wf(),
    ensures
        final(runtime).wf(),
        final(runtime).contexts() == Map::<(Seq<char>, Seq<char>), Seq<u8>>::empty(),
        final(runtime).ready_models() == Set::<Seq<char>>::empty(),
        final(runtime).service() == old(runtime).service(),
        final(runtime).account() == old(runtime).account(),
{
    runtime.contexts = Vec::new();
    runtime.ready = Vec::new();
    assert(runtime.contexts() =~= Map::<(Seq<char>, Seq<char>), Seq<u8>>::empty());
    assert(runtime.ready_models() =~= Set::<Seq<char>>::empty());
}

/// Resolves a previously registered crypto context by explicit model/field tag pair.
pub fn resolve_crypto_context(runtime: &CryptoRuntime, tag: CryptoTag) -> (res: Result<
    Arc<CryptoContext>,
    CryptoError,
>)
    requires
        runtime.wf(),
    ensures
        match resolution(runtime.contexts(), tag) {
            Ok(k) => res matches Ok(c) && c@ == k,
            Err(e) => res matches Err(f) && f == e,
        },
{
    match runtime.lookup(tag.model, tag.field) {
        Some(c) => Ok(Arc::new(c)),
        None => Err(CryptoError::ResolverNotFound { model_tag: tag.model, field_tag: tag.field }),
    }
}

/// Contexts are scoped by model and field tag: a context registered under a
/// tag is what that tag resolves to, and registering under one tag leaves
/// what every other tag resolves to unchanged.
pub proof fn lemma_registry_is_tag_scoped(
    contexts: Map<(Seq<char>, Seq<char>), Seq<u8>>,
    tag: CryptoTag,
    key: Seq<u8>,
    other: CryptoTag,
)
    ensures
        resolution(contexts.insert(tag_key(tag), key), tag) == Ok::<Seq<u8>, CryptoError>(key),
        tag_key(other) != tag_key(tag) ==> resolution(contexts.insert(tag_key(tag), key), other)
            == resolution(contexts, other),
{
}

/// Every context in `before` is still in `after`, with the same key.
pub open spec fn keeps_contexts(
    before: Map<(Seq<char>, Seq<char>), Seq<u8>>,
    after: Map<(Seq<char>, Seq<char>), Seq<u8>>,
) -> bool {
    forall|k: (Seq<char>, Seq<char>)| #[trigger]
        before.contains_key(k) ==> after.contains_key(k) && after[k] == before[k]
}

/// The service under which a secure field's key is kept: its own, or the default.
pub open spec fn key_service(meta: SensitiveFieldMetadata, default_service: Seq<char>) -> Seq<char> {
    match meta.service {
        Some(s) => s@,
        None => default_service,
    }
}

/// The account under which a secure field's key is kept: its own, or the default.
pub open spec fn key_account(meta: SensitiveFieldMetadata, default_account: Seq<char>) -> Seq<char> {
    match meta.account {
        Some(a) => a@,
        None => default_account,
    }
}

/// Builds the context for one secure field by handing its key location, the
/// field's own service and account or else the defaults, to `load`.
pub fn build_context_for_metadata<F: Fn(&str, &str) -> Result<CryptoContext, CryptoError>>(
    meta: &SensitiveFieldMetadata,
    defaults: &DefaultCryptoConfig,
    load: &F,
) -> (res: Result<CryptoContext, CryptoError>)
    requires
        forall|s: &str, a: &str| load.requires((s, a)),
    ensures
        exists|s: &str, a: &str|
            s@ == key_service(*meta, defaults.service@) && a@ == key_account(
                *meta,
                defaults.account@,
            ) && load.ensures((s, a), res),
{
    let service: &str = match meta.service {
        Some(s) => s,
        None => defaults.service.as_str(),
    };
    let account: &str = match meta.account {
        Some(a) => a,
        None => defaults.account.as_str(),
    };
    load(service, account)
}

/// Registers a context for every listed secure field that has none yet,
/// loading each field's key through `load` in order (also for fields already
/// registered); the first failing load stops the registration and is returned.
pub fn register_model_crypto_fields<F: Fn(&str, &str) -> Result<CryptoContext, CryptoError>>(
    runtime: &mut CryptoRuntime,
    fields: &[SensitiveFieldMetadata],
    load: &F,
) -> (res: Result<(), CryptoError>)
    requires
        old(runtime).wf(),
        forall|s: &str, a: &str| load.requires((s, a)),
    ensures
        final(runtime).wf(),
        final(runtime).ready_models() == old(runtime).ready_models(),
        final(runtime).service() == old(runtime).service(),
        final(runtime).account() == old(runtime).account(),
        keeps_contexts(old(runtime).contexts(), final(runtime).contexts()),
        final(runtime).contexts().dom().subset_of(
            old(runtime).contexts().dom().union(meta_keys(fields@)),
        ),
        res is Ok ==> final(runtime).contexts().dom() == old(runtime).contexts().dom().union(
            meta_keys(fields@),
        ),
        forall|k: (Seq<char>, Seq<char>)|
            #![trigger final(runtime).contexts().contains_key(k)]
            final(runtime).contexts().contains_key(k) && !old(runtime).contexts().contains_key(k)
                ==> exists|s: &str, a: &str, c: CryptoContext|
                c@ == final(runtime).contexts()[k] && load.ensures(
                    (s, a),
                    Ok::<CryptoContext, CryptoError>(c),
                ),
        res matches Err(e) ==> exists|s: &str, a: &str|
            load.ensures((s, a), Err::<CryptoContext, CryptoError>(e)),
{
    let defaults = default_crypto_config(runtime);
    let ghost start = *runtime;
    let n = fields.len();
    let mut i: usize = 0;
    while i < n
        invariant
            n == fields@.len(),
            i <= n,
            forall|s: &str, a: &str| load.requires((s, a)),
            runtime.wf(),
            runtime.ready_models() == start.ready_models(),
            runtime.service() == start.service(),
            runtime.account() == start.account(),
            start == *old(runtime),
            keeps_contexts(start.contexts(), runtime.contexts()),
            runtime.contexts().dom() == start.contexts().dom().union(
                meta_keys(fields@.take(i as int)),
            ),
            forall|k: (Seq<char>, Seq<char>)|
                #![trigger runtime.contexts().contains_key(k)]
                runtime.contexts().contains_key(k) && !start.contexts().contains_key(k)
                    ==> exists|s: &str, a: &str, c: CryptoContext|
                    c@ == runtime.contexts()[k] && load.ensures(
                        (s, a),
                        Ok::<CryptoContext, CryptoError>(c),
                    ),
        decreases n - i,
    {
        let meta = &fields[i];
        let ghost before = *runtime;
        let context = match build_context_for_metadata(meta, &defaults, load) {
            Ok(c) => c,
            Err(e) => {
                proof {
                    let t0 = fields@.take(i as int);
                    assert forall|k| meta_keys(t0).contains(k) implies meta_keys(fields@).contains(
                        k,
                    ) by {
                        let j = choose|j: int| 0 <= j < t0.len() && meta_key(t0[j]) == k;
                        assert(fields@[j] == t0[j]);
                    }
                }
                return Err(e);
            },
        };
        if runtime.lookup(meta.model_tag, meta.field_tag).is_none() {
            runtime.put(CryptoTag::new(meta.model_tag, meta.field_tag), context);
        }
        proof {
            let k0 = meta_key(*meta);
            let t0 = fields@.take(i as int);
            let t1 = fields@.take(i + 1);
            assert(meta_keys(t1) =~= meta_keys(t0).insert(k0)) by {
                assert forall|k| #[trigger] meta_keys(t1).contains(k) == meta_keys(t0).insert(
                    k0,
                ).contains(k) by {
                    if meta_keys(t1).contains(k) {
                        let j = choose|j: int| 0 <= j < t1.len() && meta_key(t1[j]) == k;
                        if j < i {
                            assert(t0[j] == t1[j]);
                        }
                    }
                    if meta_keys(t0).contains(k) {
                        let j = choose|j: int| 0 <= j < t0.len() && meta_key(t0[j]) == k;
                        assert(t0[j] == t1[j]);
                    }
                    if k == k0 {
                        assert(t1[i as int] == *meta);
                    }
                }
            }
            assert(runtime.contexts().dom() =~= before.contexts().dom().insert(k0));
        }
        i = i + 1;
    }
    proof {
        assert(fields@.take(n as int) =~= fields@);
    }
    Ok(())
}

/// Makes sure the contexts of a model's generated secure fields are
/// registered before one of them is resolved: nothing happens when the field
/// already has a context or the model was registered before; otherwise the
/// model's fields are registered and, when that succeeds, the model is
/// remembered as registered.
pub fn ensure_sensitive_model_ready<F: Fn(&str, &str) -> Result<CryptoContext, CryptoError>>(
    runtime: &mut CryptoRuntime,
    model_tag: &'static str,
    field_tag: &'static str,
    fields: &[SensitiveFieldMetadata],
    load: &F,
) -> (res: Result<(), CryptoError>)
    requires
        old(runtime).wf(),
        forall|s: &str, a: &str| load.requires((s, a)),
    ensures
        final(runtime).wf(),
        final(runtime).service() == old(runtime).service(),
        final(runtime).account() == old(runtime).account(),
        keeps_contexts(old(runtime).contexts(), final(runtime).contexts()),
        old(runtime).contexts().contains_key((model_tag@, field_tag@)) || old(runtime).ready_models().contains(model_tag@) ==> res is Ok && final(runtime).contexts() == old(runtime).contexts() && final(runtime).ready_models() == old(runtime).ready_models(),
        !old(runtime).contexts().contains_key((model_tag@, field_tag@)) && !old(runtime).ready_models().contains(model_tag@) ==> registration_outcome(
            *old(runtime),
            *final(runtime),
            model_tag@,
            fields@,
            res is Ok,
        ),
        res matches Err(e) ==> exists|s: &str, a: &str|
            load.ensures((s, a), Err::<CryptoContext, CryptoError>(e)),
{
    if runtime.lookup(model_tag, field_tag).is_some() {
        return Ok(());
    }
    if runtime.is_ready(model_tag) {
        return Ok(());
    }
    match register_model_crypto_fields(runtime, fields, load) {
        Ok(()) => {},
        Err(e) => {
            return Err(e);
        },
    }
    runtime.mark_ready(model_tag);
    Ok(())
}

/// What registering a model's secure fields leaves behind: earlier contexts
/// stay; when it succeeded, every listed field has a context and the model is
/// remembered as registered; when it failed, only some listed fields may have
/// gained one and the model is not remembered.
pub open spec fn registration_outcome(
    before: CryptoRuntime,
    after: CryptoRuntime,
    model: Seq<char>,
    fields: Seq<SensitiveFieldMetadata>,
    succeeded: bool,
) -> bool {
    &&& keeps_contexts(before.contexts(), after.contexts())
    &&& after.contexts().dom().subset_of(before.contexts().dom().union(meta_keys(fields)))
    &&& succeeded ==> after.contexts().dom() == before.contexts().dom().union(meta_keys(fields))
        && after.ready_models() == before.ready_models().insert(model)
    &&& !succeeded ==> after.ready_models() == before.ready_models()
}

/// What resolving a tag with automatic registration gives. When the tag or
/// its model was registered before, the runtime is unchanged and the result
/// is what the tag resolves to. Otherwise the model's fields are registered:
/// when that succeeds, the result is what the tag then resolves to; when it
/// fails, the result is a loading error.
pub open spec fn resolved_with<F: Fn(&str, &str) -> Result<CryptoContext, CryptoError>>(
    before: CryptoRuntime,
    after: CryptoRuntime,
    tag: CryptoTag,
    fields: Seq<SensitiveFieldMetadata>,
    load: F,
    res: Result<Arc<CryptoContext>, CryptoError>,
) -> bool {
    &&& before.contexts().contains_key(tag_key(tag)) || before.ready_models().contains(tag.model@)
        ==> after.contexts() == before.contexts() && after.ready_models() == before.ready_models()
        && match resolution(before.contexts(), tag) {
        Ok(k) => res matches Ok(c) && c@ == k,
        Err(e) => res matches Err(f) && f == e,
    }
    &&& !before.contexts().contains_key(tag_key(tag)) && !before.ready_models().contains(tag.model@)
        ==> exists|succeeded: bool|
        registration_outcome(before, after, tag.model@, fields, succeeded) && (succeeded ==> match resolution(
            after.contexts(),
            tag,
        ) {
            Ok(k) => res matches Ok(c) && c@ == k,
            Err(e) => res matches Err(f) && f == e,
        }) && (!succeeded ==> (res matches Err(e) && exists|s: &str, a: &str|
            load.ensures((s, a), Err::<CryptoContext, CryptoError>(e))))
}

/// Resolves the context of a secure field, first registering the secure
/// fields of its model when neither the field nor the model was registered.
pub fn resolve_crypto_context_with<F: Fn(&str, &str) -> Result<CryptoContext, CryptoError>>(
    runtime: &mut CryptoRuntime,
    tag: CryptoTag,
    fields: &[SensitiveFieldMetadata],
    load: &F,
) -> (res: Result<Arc<CryptoContext>, CryptoError>)
    requires
        old(runtime).wf(),
        forall|s: &str, a: &str| load.requires((s, a)),
    ensures
        final(runtime).wf(),
        final(runtime).service() == old(runtime).service(),
        final(runtime).account() == old(runtime).account(),
        keeps_contexts(old(runtime).contexts(), final(runtime).contexts()),
        resolved_with(*old(runtime), *final(runtime), tag, fields@, load, res),
{
    let ready = ensure_sensitive_model_ready(runtime, tag.model, tag.field, fields, load);
    match ready {
        Ok(()) => resolve_crypto_context(runtime, tag),
        Err(e) => Err(e),
    }
}

/// Resolves the context registered for the generated tag of one secure field,
/// registering the secure fields of its model on first use; `load` builds a
/// context from a key location (service and account).
pub fn resolve_crypto_context_for<
    Tag: SensitiveFieldTag,
    F: Fn(&str, &str) -> Result<CryptoContext, CryptoError>,
>(runtime: &mut CryptoRuntime, load: &F) -> (res: Result<Arc<CryptoContext>, CryptoError>)
    requires
        old(runtime).wf(),
        forall|s: &str, a: &str| load.requires((s, a)),
    ensures
        final(runtime).wf(),
        final(runtime).service() == old(runtime).service(),
        final(runtime).account() == old(runtime).account(),
        keeps_contexts(old(runtime).contexts(), final(runtime).contexts()),
        exists|model: &'static str, field: &'static str, meta: &'static SensitiveFieldMetadata|
            call_ensures(Tag::model_tag, (), model) && call_ensures(Tag::field_tag, (), field)
                && call_ensures(Tag::crypto_metadata, (), meta) && resolved_with(
                *old(runtime),
                *final(runtime),
                (CryptoTag { model, field }),
                meta.secure_fields@,
                load,
                res,
            ),
{
    let model_tag = Tag::model_tag;
    let field_tag = Tag::field_tag;
    let crypto_metadata = Tag::crypto_metadata;
    let model = model_tag();
    let field = field_tag();
    let meta = crypto_metadata();
    let tag = CryptoTag::new(model, field);
    resolve_crypto_context_with(runtime, tag, meta.secure_fields, load)
}

/// Where the one-time automatic registration of a model's secure fields stands.
#[derive(Debug, Clone, Copy, PartialEq, Eq, Structural)]
pub enum AutoCryptoInitState {
    /// Not registered yet, or the last attempt failed.
    Pending,
    /// An attempt is running.
    Running,
    /// Registered.
    Ready,
}

/// What a caller that wants a model registered does next.
#[derive(Debug, Clone, Copy, PartialEq, Eq, Structural)]
pub enum AutoCryptoInitAction {
    /// The model is registered: go on.
    Proceed,
    /// Run the registration, then report how it went.
    Run,
    /// Another caller is registering: wait for it to finish, then look again.
    Wait,
}

/// The step a caller takes on arriving: a registered model lets it proceed, a
/// pending one makes it run the registration (and marks it running), a
/// running one makes it wait.
pub open spec fn arrival(state: AutoCryptoInitState) -> (AutoCryptoInitState, AutoCryptoInitAction) {
    match state {
        AutoCryptoInitState::Ready => (AutoCryptoInitState::Ready, AutoCryptoInitAction::Proceed),
        AutoCryptoInitState::Pending => (AutoCryptoInitState::Running, AutoCryptoInitAction::Run),
        AutoCryptoInitState::Running => (AutoCryptoInitState::Running, AutoCryptoInitAction::Wait),
    }
}

/// The state after a registration attempt: registered when it succeeded,
/// pending again (to be retried) when it failed.
pub open spec fn after_attempt(succeeded: bool) -> AutoCryptoInitState {
    if succeeded {
        AutoCryptoInitState::Ready
    } else {
        AutoCryptoInitState::Pending
    }
}

/// The step a caller takes on arriving.
pub fn auto_init_arrive(state: AutoCryptoInitState) -> (out: (
    AutoCryptoInitState,
    AutoCryptoInitAction,
))
    ensures
        out == arrival(state),
{
    match state {
        AutoCryptoInitState::Ready => (AutoCryptoInitState::Ready, AutoCryptoInitAction::Proceed),
        AutoCryptoInitState::Pending => (AutoCryptoInitState::Running, AutoCryptoInitAction::Run),
        AutoCryptoInitState::Running => (AutoCryptoInitState::Running, AutoCryptoInitAction::Wait),
    }
}

/// The state after a registration attempt.
pub fn auto_init_finish(succeeded: bool) -> (out: AutoCryptoInitState)
    ensures
        out == after_attempt(succeeded),
{
    if succeeded {
        AutoCryptoInitState::Ready
    } else {
        AutoCryptoInitState::Pending
    }
}

/// Registration runs at most once successfully: the caller that finds the
/// model pending runs it, a successful attempt lets every later caller
/// proceed without running it again, and a failed one leaves it to be run by
/// the next caller.
pub proof fn lemma_auto_init_runs_once(succeeded: bool)
    ensures
        arrival(AutoCryptoInitState::Pending).1 == AutoCryptoInitAction::Run,
        succeeded ==> arrival(after_attempt(succeeded)) == (
            AutoCryptoInitState::Ready,
            AutoCryptoInitAction::Proceed,
        ),
        !succeeded ==> arrival(after_attempt(succeeded)).1 == AutoCryptoInitAction::Run,
{
}

} // verus!
