//! Options for the embedded datastore, their engine parameter encodings, and
//! the rewrite that makes registered schema statements idempotent.

use vstd::prelude::*;

use crate::error::DBError;
use crate::text::{
    chars_eq, chars_to_string, contains_str, count_leading_ws, decimal, find_case_insensitive,
    first_index, first_occurrence, lemma_first_index, lemma_first_occurrence_exists,
    lemma_leading_ws_len_bound, lemma_leading_ws_len_unique, leading_ws_len, lower_seq, occurs_at,
    owned, push_char, push_str, seq_contains, skip_chars, str_eq, str_to_chars, take_chars,
    to_ascii_lower, to_ascii_upper, u128_to_decimal, u64_to_decimal, upper_seq, ascii_lower,
    ascii_upper,
};

verus! {

/// A span of time: whole seconds, and the nanoseconds of the second under way.
#[derive(Debug, Clone, Copy, PartialEq, Eq, Structural)]
pub struct Duration {
    secs: u64,
    nanos: u32,
}

impl Duration {
    /// The nanoseconds of the second under way stay below one second.
    #[verifier::type_invariant]
    spec fn wf(self) -> bool {
        self.nanos < 1_000_000_000
    }

    /// Whole seconds of this duration.
    pub closed spec fn secs_of(self) -> nat {
        self.secs as nat
    }

    /// Nanoseconds of this duration beyond its whole seconds.
    pub closed spec fn nanos_of(self) -> nat {
        self.nanos as nat
    }

    /// The zero-length duration.
    pub fn zero() -> (out: Duration)
        ensures
            out.secs_of() == 0,
            out.nanos_of() == 0,
    {
        Duration { secs: 0, nanos: 0 }
    }

    /// A duration of whole seconds.
    pub fn from_secs(secs: u64) -> (out: Duration)
        ensures
            out.secs_of() == secs,
            out.nanos_of() == 0,
    {
        Duration { secs, nanos: 0 }
    }

    /// A duration of whole milliseconds.
    pub fn from_millis(millis: u64) -> (out: Duration)
        ensures
            out.secs_of() == millis / 1000,
            out.nanos_of() == (millis % 1000) * 1_000_000,
    {
        let rest: u64 = millis % 1000;
        Duration { secs: millis / 1000, nanos: (rest * 1_000_000) as u32 }
    }

    /// A duration of whole microseconds.
    pub fn from_micros(micros: u64) -> (out: Duration)
        ensures
            out.secs_of() == micros / 1_000_000,
            out.nanos_of() == (micros % 1_000_000) * 1000,
    {
        let rest: u64 = micros % 1_000_000;
        Duration { secs: micros / 1_000_000, nanos: (rest * 1000) as u32 }
    }

    /// A duration of whole nanoseconds.
    pub fn from_nanos(nanos: u64) -> (out: Duration)
        ensures
            out.secs_of() == nanos / 1_000_000_000,
            out.nanos_of() == nanos % 1_000_000_000,
    {
        let rest: u64 = nanos % 1_000_000_000;
        Duration { secs: nanos / 1_000_000_000, nanos: rest as u32 }
    }

    /// A duration of whole seconds and extra nanoseconds; whole seconds among
    /// the nanoseconds carry over into the seconds, which must not overflow.
    pub fn new(secs: u64, nanos: u32) -> (out: Duration)
        requires
            secs + nanos / 1_000_000_000 <= u64::MAX,
        ensures
            out.secs_of() == secs + nanos / 1_000_000_000,
            out.nanos_of() == nanos % 1_000_000_000,
    {
        let carry: u64 = (nanos / 1_000_000_000) as u64;
        Duration { secs: secs + carry, nanos: nanos % 1_000_000_000 }
    }

    /// Whole seconds of this duration.
    pub fn as_secs(&self) -> (out: u64)
        ensures
            out == self.secs_of(),
    {
        self.secs
    }

    /// Nanoseconds of this duration beyond its whole seconds.
    pub fn subsec_nanos(&self) -> (out: u32)
        ensures
            out == self.nanos_of(),
            out < 1_000_000_000,
    {
        proof {
            use_type_invariant(self);
        }
        self.nanos
    }
}

/// A duration is its whole seconds and its nanoseconds: two durations that
/// agree on both are the same duration.
pub proof fn lemma_duration_ext(a: Duration, b: Duration)
    requires
        a.secs_of() == b.secs_of(),
        a.nanos_of() == b.nanos_of(),
    ensures
        a == b,
{
}

/// Disk sync policy for the embedded local datastore.
#[derive(Debug, Clone, Copy, PartialEq, Eq)]
pub enum LocalStorageSync {
    /// Leave flushing to the operating system.
    Never,
    /// Sync every committed transaction.
    Every,
    /// Flush periodically on the storage engine's background lifecycle.
    Interval(Duration),
}

/// Engine parameter text of a duration given as whole seconds and sub-second nanoseconds.
pub open spec fn duration_param_text(secs: nat, nanos: nat) -> Seq<char> {
    let micros = secs * 1_000_000 + nanos / 1000;
    let millis = secs * 1000 + nanos / 1_000_000;
    if secs == 0 && nanos == 0 {
        seq!['0']
    } else if micros < 1000 {
        decimal(micros) + seq!['u', 's']
    } else if micros % 1000 == 0 && millis < 1000 {
        decimal(millis) + seq!['m', 's']
    } else if nanos == 0 {
        if secs % 86400 == 0 {
            decimal(secs / 86400) + seq!['d']
        } else if secs % 3600 == 0 {
            decimal(secs / 3600) + seq!['h']
        } else if secs % 60 == 0 {
            decimal(secs / 60) + seq!['m']
        } else {
            decimal(secs) + seq!['s']
        }
    } else {
        decimal(millis) + seq!['m', 's']
    }
}

/// Renders a duration, given by its whole seconds and sub-second nanoseconds,
/// in SurrealDB duration units (`0`, `us`, `ms`, `s`, `m`, `h`, `d`).
pub fn format_duration_parts(secs: u64, nanos: u32) -> (out: String)
    requires
        nanos < 1_000_000_000,
    ensures
        out@ == duration_param_text(secs as nat, nanos as nat),
{
    let micros: u128 = (secs as u128) * 1_000_000 + (nanos as u128) / 1000;
    let millis: u128 = (secs as u128) * 1000 + (nanos as u128) / 1_000_000;
    if secs == 0 && nanos == 0 {
        let mut out = String::new();
        push_char(&mut out, '0');
        return out;
    }
    let mut out;
    if micros < 1000 {
        out = u128_to_decimal(micros);
        push_char(&mut out, 'u');
        push_char(&mut out, 's');
    } else if micros % 1000 == 0 && millis < 1000 {
        out = u128_to_decimal(millis);
        push_char(&mut out, 'm');
        push_char(&mut out, 's');
    } else if nanos == 0 {
        if secs % 86400 == 0 {
            out = u64_to_decimal(secs / 86400);
            push_char(&mut out, 'd');
        } else if secs % 3600 == 0 {
            out = u64_to_decimal(secs / 3600);
            push_char(&mut out, 'h');
        } else if secs % 60 == 0 {
            out = u64_to_decimal(secs / 60);
            push_char(&mut out, 'm');
        } else {
            out = u64_to_decimal(secs);
            push_char(&mut out, 's');
        }
    } else {
        out = u128_to_decimal(millis);
        push_char(&mut out, 'm');
        push_char(&mut out, 's');
    }
    assert(out@ =~= duration_param_text(secs as nat, nanos as nat));
    out
}

/// Engine parameter text of a duration.
pub open spec fn duration_text(duration: Duration) -> Seq<char> {
    duration_param_text(duration.secs_of(), duration.nanos_of())
}

/// Renders a duration in SurrealDB duration units.
pub fn format_duration_param(duration: Duration) -> (out: String)
    ensures
        out@ == duration_text(duration),
{
    let secs = duration.as_secs();
    let nanos = duration.subsec_nanos();
    format_duration_parts(secs, nanos)
}

/// Engine parameter text of a sync policy.
pub open spec fn sync_text(sync: LocalStorageSync) -> Seq<char> {
    match sync {
        LocalStorageSync::Never => "never"@,
        LocalStorageSync::Every => "every"@,
        LocalStorageSync::Interval(d) => duration_text(d),
    }
}

impl LocalStorageSync {
    /// The engine parameter text of this sync policy: `never`, `every`, or the
    /// interval in duration units.
    pub fn to_string(&self) -> (out: String)
        ensures
            out@ == sync_text(*self),
    {
        match self {
            LocalStorageSync::Never => owned("never"),
            LocalStorageSync::Every => owned("every"),
            LocalStorageSync::Interval(d) => format_duration_param(*d),
        }
    }
}

/// Options used when opening the embedded SurrealDB runtime.
#[derive(Debug, Clone)]
pub struct InitDbOptions {
    /// Enables SurrealKV versioned storage.
    pub versioned: bool,
    /// Optional retention window used when versioning is enabled.
    pub version_retention: Option<Duration>,
    /// Optional per-query timeout.
    pub query_timeout: Option<Duration>,
    /// Optional per-transaction timeout.
    pub transaction_timeout: Option<Duration>,
    /// Optional changefeed garbage-collection interval.
    pub changefeed_gc_interval: Option<Duration>,
    /// Enables SurrealDB AST payload storage.
    pub ast_payload: bool,
    /// Optional disk sync policy for the embedded local datastore.
    pub local_storage_sync: Option<LocalStorageSync>,
    /// Optional SurrealKV memtable size bound in bytes.
    pub surreal_kv_max_memtable_size: Option<usize>,
}

impl Default for InitDbOptions {
    /// Non-versioned storage with every optional setting left unset.
    fn default() -> (out: Self)
        ensures
            !out.versioned,
            out.version_retention is None,
            out.query_timeout is None,
            out.transaction_timeout is None,
            out.changefeed_gc_interval is None,
            !out.ast_payload,
            out.local_storage_sync is None,
            out.surreal_kv_max_memtable_size is None,
    {
        InitDbOptions {
            versioned: false,
            version_retention: None,
            query_timeout: None,
            transaction_timeout: None,
            changefeed_gc_interval: None,
            ast_payload: false,
            local_storage_sync: None,
            surreal_kv_max_memtable_size: None,
        }
    }
}

impl InitDbOptions {
    /// Uses the storage policy appdb recommends for local interactive apps:
    /// non-versioned, changefeed garbage collection on every tick, a sync on
    /// every commit, and a 16 MiB memtable bound.
    pub fn local_app() -> (out: Self)
        ensures
            !out.versioned,
            out.version_retention is None,
            out.query_timeout is None,
            out.transaction_timeout is None,
            out.changefeed_gc_interval matches Some(d) && d.secs_of() == 0 && d.nanos_of() == 0,
            !out.ast_payload,
            out.local_storage_sync == Some(LocalStorageSync::Every),
            out.surreal_kv_max_memtable_size == Some(16777216usize),
    {
        Self::default()
            .versioned(false)
            .changefeed_gc_interval(Some(Duration::zero()))
            .local_storage_sync(Some(LocalStorageSync::Every))
            .surreal_kv_max_memtable_size(Some(16 * 1024 * 1024))
    }

    /// Enables or disables versioned storage.
    pub fn versioned(self, enabled: bool) -> (out: Self)
        ensures
            out == (InitDbOptions { versioned: enabled, ..self }),
    {
        InitDbOptions { versioned: enabled, ..self }
    }

    /// Sets the retention window for versioned storage.
    pub fn version_retention(self, duration: Option<Duration>) -> (out: Self)
        ensures
            out == (InitDbOptions { version_retention: duration, ..self }),
    {
        InitDbOptions { version_retention: duration, ..self }
    }

    /// Sets the query timeout.
    pub fn query_timeout(self, duration: Option<Duration>) -> (out: Self)
        ensures
            out == (InitDbOptions { query_timeout: duration, ..self }),
    {
        InitDbOptions { query_timeout: duration, ..self }
    }

    /// Sets the transaction timeout.
    pub fn transaction_timeout(self, duration: Option<Duration>) -> (out: Self)
        ensures
            out == (InitDbOptions { transaction_timeout: duration, ..self }),
    {
        InitDbOptions { transaction_timeout: duration, ..self }
    }

    /// Sets the changefeed garbage-collection interval.
    pub fn changefeed_gc_interval(self, duration: Option<Duration>) -> (out: Self)
        ensures
            out == (InitDbOptions { changefeed_gc_interval: duration, ..self }),
    {
        InitDbOptions { changefeed_gc_interval: duration, ..self }
    }

    /// Enables or disables AST payload storage.
    pub fn ast_payload(self, enabled: bool) -> (out: Self)
        ensures
            out == (InitDbOptions { ast_payload: enabled, ..self }),
    {
        InitDbOptions { ast_payload: enabled, ..self }
    }

    /// Sets the embedded local datastore disk sync policy.
    pub fn local_storage_sync(self, sync: Option<LocalStorageSync>) -> (out: Self)
        ensures
            out == (InitDbOptions { local_storage_sync: sync, ..self }),
    {
        InitDbOptions { local_storage_sync: sync, ..self }
    }

    /// Sets the SurrealKV memtable size bound in bytes.
    pub fn surreal_kv_max_memtable_size(self, size: Option<usize>) -> (out: Self)
        ensures
            out == (InitDbOptions { surreal_kv_max_memtable_size: size, ..self }),
    {
        InitDbOptions { surreal_kv_max_memtable_size: size, ..self }
    }
}

/// Text of a boolean as `to_string` prints it.
pub open spec fn bool_text(b: bool) -> Seq<char> {
    if b {
        "true"@
    } else {
        "false"@
    }
}

fn bool_to_string(b: bool) -> (out: String)
    ensures
        out@ == bool_text(b),
{
    if b {
        owned("true")
    } else {
        owned("false")
    }
}

/// The datastore configuration entries written for a set of options, in
/// order: whether storage is versioned, then the retention window, the sync
/// policy and the memtable bound, each only when set.
pub open spec fn datastore_config(options: InitDbOptions) -> Seq<(Seq<char>, Seq<char>)> {
    seq![("datastore_versioned"@, bool_text(options.versioned))] + (match options.version_retention {
        Some(d) => seq![("datastore_retention"@, duration_text(d))],
        None => Seq::empty(),
    }) + (match options.local_storage_sync {
        Some(sync) => seq![("datastore_sync"@, sync_text(sync))],
        None => Seq::empty(),
    }) + (match options.surreal_kv_max_memtable_size {
        Some(n) => seq![("surrealkv_max_memtable_size"@, decimal(n as nat))],
        None => Seq::empty(),
    })
}

/// The plain text of configuration entries.
pub open spec fn entries_view(entries: Seq<(String, String)>) -> Seq<(Seq<char>, Seq<char>)> {
    entries.map_values(|e: (String, String)| (e.0@, e.1@))
}

/// Datastore configuration key/value pairs for the embedded engine.
///
/// The first entry records whether storage is versioned; retention, sync
/// policy and memtable bound follow, each only when set.
pub fn local_datastore_config(options: &InitDbOptions) -> (out: Vec<(String, String)>)
    ensures
        entries_view(out@) == datastore_config(*options),
{
    let mut out: Vec<(String, String)> = Vec::new();
    out.push((owned("datastore_versioned"), bool_to_string(options.versioned)));
    assert(entries_view(out@) =~= seq![("datastore_versioned"@, bool_text(options.versioned))]);
    let ghost e0 = entries_view(out@);
    if let Some(retention) = options.version_retention {
        let ghost before = out@;
        out.push((owned("datastore_retention"), format_duration_param(retention)));
        assert(entries_view(out@) =~= entries_view(before).push(
            ("datastore_retention"@, duration_text(retention)),
        ));
    }
    let ghost e1 = entries_view(out@);
    assert(e1 =~= e0 + (match options.version_retention {
        Some(d) => seq![("datastore_retention"@, duration_text(d))],
        None => Seq::empty(),
    }));
    if let Some(sync) = options.local_storage_sync {
        let ghost before = out@;
        out.push((owned("datastore_sync"), sync.to_string()));
        assert(entries_view(out@) =~= entries_view(before).push(("datastore_sync"@, sync_text(sync))));
    }
    let ghost e2 = entries_view(out@);
    assert(e2 =~= e1 + (match options.local_storage_sync {
        Some(sync) => seq![("datastore_sync"@, sync_text(sync))],
        None => Seq::empty(),
    }));
    if let Some(size) = options.surreal_kv_max_memtable_size {
        let ghost before = out@;
        out.push((owned("surrealkv_max_memtable_size"), u64_to_decimal(size as u64)));
        assert(entries_view(out@) =~= entries_view(before).push(
            ("surrealkv_max_memtable_size"@, decimal(size as nat)),
        ));
    }
    assert(entries_view(out@) =~= datastore_config(*options));
    out
}

/// The SurrealKV endpoint for a local storage directory: `surrealkv://` then the path.
pub fn local_storage_datastore_path(path: &str) -> (out: String)
    ensures
        out@ == "surrealkv://"@ + path@,
{
    let mut out = owned("surrealkv://");
    push_str(&mut out, path);
    out
}

/// Whether an engine error message reports a schema item that already exists.
pub open spec fn is_already_defined_message(message: Seq<char>) -> bool {
    seq_contains(lower_seq(message), "already exists"@) || seq_contains(
        lower_seq(message),
        "already defined"@,
    )
}

/// Whether an engine error message reports a schema item that already exists.
pub fn is_schema_already_defined_error(message: &str) -> (res: bool)
    ensures
        res == is_already_defined_message(message@),
{
    let chars = str_to_chars(message);
    let lower = to_ascii_lower(chars.as_slice());
    contains_str(lower.as_slice(), "already exists") || contains_str(
        lower.as_slice(),
        "already defined",
    )
}

/// `ddl` with ` IF NOT EXISTS` inserted at character position `at`.
pub open spec fn insert_if_not_exists(ddl: Seq<char>, at: int) -> Seq<char> {
    ddl.take(at) + " IF NOT EXISTS"@ + ddl.skip(at)
}

/// The rewrite of `ddl` that places ` IF NOT EXISTS` right after the first
/// case-insensitive occurrence of `keyword` in its trimmed text, if there is one.
pub open spec fn keyword_insertion(ddl: Seq<char>, keyword: Seq<char>) -> Option<Seq<char>> {
    let lw = leading_ws_len(ddl) as int;
    let upper = upper_seq(ddl.skip(lw));
    if seq_contains(upper, upper_seq(keyword)) {
        Some(
            insert_if_not_exists(ddl, lw + first_index(upper, upper_seq(keyword)) + keyword.len()),
        )
    } else {
        None
    }
}

/// Whether the trimmed statement starts with `DEFINE`, ignoring ASCII case.
pub open spec fn starts_with_define(trimmed: Seq<char>) -> bool {
    trimmed.len() >= 6 && upper_seq(trimmed).take(6) == "DEFINE"@
}

/// The idempotent form of a schema statement.
///
/// A `DEFINE` statement that does not already say `IF NOT EXISTS` gets it
/// inserted after its first `DEFINE TABLE`, `DEFINE FIELD` or `DEFINE INDEX`
/// (tried in that order); every other statement is left as it is.
pub open spec fn idempotent_ddl(ddl: Seq<char>) -> Seq<char> {
    let trimmed = ddl.skip(leading_ws_len(ddl) as int);
    if !starts_with_define(trimmed) || seq_contains(upper_seq(trimmed), "IF NOT EXISTS"@) {
        ddl
    } else if keyword_insertion(ddl, "DEFINE TABLE"@) is Some {
        keyword_insertion(ddl, "DEFINE TABLE"@)->0
    } else if keyword_insertion(ddl, "DEFINE FIELD"@) is Some {
        keyword_insertion(ddl, "DEFINE FIELD"@)->0
    } else if keyword_insertion(ddl, "DEFINE INDEX"@) is Some {
        keyword_insertion(ddl, "DEFINE INDEX"@)->0
    } else {
        ddl
    }
}

fn insert_after_keyword(chars: &Vec<char>, lw: usize, trimmed: &Vec<char>, keyword: &str) -> (res:
    Option<String>)
    requires
        lw == leading_ws_len(chars@),
        trimmed@ == chars@.skip(lw as int),
    ensures
        match res {
            Some(s) => keyword_insertion(chars@, keyword@) == Some(s@),
            None => keyword_insertion(chars@, keyword@) is None,
        },
{
    proof {
        lemma_leading_ws_len_bound(chars@);
    }
    match find_case_insensitive(trimmed.as_slice(), keyword) {
        Some(pos) => {
            let kw = str_to_chars(keyword);
            proof {
                lemma_first_index(upper_seq(trimmed@), upper_seq(keyword@), pos as int);
            }
            assert(upper_seq(trimmed@).len() == trimmed@.len());
            assert(upper_seq(keyword@).len() == kw@.len());
            assert(lw + trimmed@.len() == chars@.len());
            let total = chars.len();
            let at = lw + pos + kw.len();
            let head = take_chars(chars.as_slice(), at);
            let tail = skip_chars(chars.as_slice(), at);
            let mut out = chars_to_string(head.as_slice());
            push_str(&mut out, " IF NOT EXISTS");
            let rest = chars_to_string(tail.as_slice());
            push_str(&mut out, rest.as_str());
            Some(out)
        },
        None => None,
    }
}

/// Rewrites a `DEFINE TABLE`, `DEFINE FIELD` or `DEFINE INDEX` statement so
/// that it does not fail when the item already exists.
pub fn make_schema_ddl_idempotent(ddl: &str) -> (out: String)
    ensures
        out@ == idempotent_ddl(ddl@),
{
    let chars = str_to_chars(ddl);
    let lw = count_leading_ws(chars.as_slice());
    proof {
        lemma_leading_ws_len_bound(chars@);
    }
    let trimmed = skip_chars(chars.as_slice(), lw);
    let upper = to_ascii_upper(trimmed.as_slice());
    let starts = if trimmed.len() >= 6 {
        let head = take_chars(upper.as_slice(), 6);
        let define = str_to_chars("DEFINE");
        chars_eq(head.as_slice(), define.as_slice())
    } else {
        false
    };
    if !starts || contains_str(upper.as_slice(), "IF NOT EXISTS") {
        return owned(ddl);
    }
    if let Some(out) = insert_after_keyword(&chars, lw, &trimmed, "DEFINE TABLE") {
        return out;
    }
    if let Some(out) = insert_after_keyword(&chars, lw, &trimmed, "DEFINE FIELD") {
        return out;
    }
    if let Some(out) = insert_after_keyword(&chars, lw, &trimmed, "DEFINE INDEX") {
        return out;
    }
    owned(ddl)
}

/// What a failed schema statement means: a statement that was sent as it was
/// written (no `IF NOT EXISTS` could be added) and failed because the item
/// already exists is fine; every other failure is a query response error
/// carrying the engine's message.
pub fn schema_failure_outcome(ddl: &str, message: String) -> (res: Result<(), DBError>)
    ensures
        idempotent_ddl(ddl@) == ddl@ && is_already_defined_message(message@) ==> res is Ok,
        !(idempotent_ddl(ddl@) == ddl@ && is_already_defined_message(message@)) ==> res == Err::<
            (),
            DBError,
        >(DBError::QueryResponse(message)),
{
    let sent = make_schema_ddl_idempotent(ddl);
    let unchanged = str_eq(sent.as_str(), ddl);
    if unchanged && is_schema_already_defined_error(message.as_str()) {
        Ok(())
    } else {
        Err(DBError::QueryResponse(message))
    }
}

proof fn lemma_insertion_is_stable(ddl: Seq<char>, keyword: Seq<char>)
    requires
        keyword.len() >= 6,
        keyword_insertion(ddl, keyword) is Some,
        starts_with_define(ddl.skip(leading_ws_len(ddl) as int)),
    ensures
        idempotent_ddl(keyword_insertion(ddl, keyword)->0) == keyword_insertion(ddl, keyword)->0,
{
    reveal_strlit(" IF NOT EXISTS");
    reveal_strlit("IF NOT EXISTS");
    let lw = leading_ws_len(ddl) as int;
    lemma_leading_ws_len_bound(ddl);
    let trimmed = ddl.skip(lw);
    let upper = upper_seq(trimmed);
    let ukw = upper_seq(keyword);
    let some_i = choose|i: int| occurs_at(upper, ukw, i);
    lemma_first_occurrence_exists(upper, ukw, some_i);
    let fi = first_index(upper, ukw);
    assert(first_occurrence(upper, ukw, fi));
    let at = lw + fi + keyword.len();
    let new = insert_if_not_exists(ddl, at);
    assert(new == keyword_insertion(ddl, keyword)->0);
    assert(ukw.len() == keyword.len());
    assert(at <= ddl.len());
    assert(new.len() == ddl.len() + 14);
    assert forall|i: int| 0 <= i < at implies #[trigger] new[i] == ddl[i] by {}
    lemma_leading_ws_len_unique(new, lw);
    let trimmed2 = new.skip(lw);
    assert(upper_seq(trimmed2).take(6) =~= upper_seq(trimmed).take(6)) by {
        assert forall|i: int| 0 <= i < 6 implies trimmed2[i] == trimmed[i] by {
            assert(new[lw + i] == ddl[lw + i]);
        }
    }
    assert(starts_with_define(trimmed2));
    let pos = at - lw + 1;
    assert(occurs_at(upper_seq(trimmed2), "IF NOT EXISTS"@, pos)) by {
        assert forall|i: int| 0 <= i < 13 implies #[trigger] upper_seq(trimmed2)[pos + i]
            == "IF NOT EXISTS"@[i] by {
            assert(trimmed2[pos + i] == new[at + 1 + i]);
            assert(new[at + 1 + i] == " IF NOT EXISTS"@[1 + i]);
        }
        assert(upper_seq(trimmed2).subrange(pos, pos + 13) =~= "IF NOT EXISTS"@);
    }
    assert(seq_contains(upper_seq(trimmed2), "IF NOT EXISTS"@));
}

/// Rewriting a schema statement is idempotent: a statement that was already
/// made idempotent is left as it is.
pub proof fn lemma_idempotent_ddl_is_stable(ddl: Seq<char>)
    ensures
        idempotent_ddl(idempotent_ddl(ddl)) == idempotent_ddl(ddl),
{
    reveal_strlit("DEFINE TABLE");
    reveal_strlit("DEFINE FIELD");
    reveal_strlit("DEFINE INDEX");
    let trimmed = ddl.skip(leading_ws_len(ddl) as int);
    if !starts_with_define(trimmed) || seq_contains(upper_seq(trimmed), "IF NOT EXISTS"@) {
    } else if keyword_insertion(ddl, "DEFINE TABLE"@) is Some {
        lemma_insertion_is_stable(ddl, "DEFINE TABLE"@);
    } else if keyword_insertion(ddl, "DEFINE FIELD"@) is Some {
        lemma_insertion_is_stable(ddl, "DEFINE FIELD"@);
    } else if keyword_insertion(ddl, "DEFINE INDEX"@) is Some {
        lemma_insertion_is_stable(ddl, "DEFINE INDEX"@);
    }
}

proof fn lemma_upper_of_lower(c: char)
    ensures
        ascii_upper(ascii_lower(c)) == ascii_upper(c),
{
    if 'A' <= c && c <= 'Z' {
        let l = ((c as u32) + 32) as char;
        assert(l as u32 == (c as u32) + 32);
        assert('a' <= l && l <= 'z');
        assert(((l as u32) - 32) as char == c);
    }
}

/// A schema statement that already says `IF NOT EXISTS`, in any mix of ASCII
/// case, is left exactly as it is: no second clause is inserted.
pub proof fn lemma_existing_clause_is_kept(ddl: Seq<char>)
    requires
        seq_contains(lower_seq(ddl.skip(leading_ws_len(ddl) as int)), "if not exists"@),
    ensures
        idempotent_ddl(ddl) == ddl,
{
    reveal_strlit("if not exists");
    reveal_strlit("IF NOT EXISTS");
    let trimmed = ddl.skip(leading_ws_len(ddl) as int);
    let i = choose|i: int| occurs_at(lower_seq(trimmed), "if not exists"@, i);
    assert forall|k: int| 0 <= k < 13 implies #[trigger] upper_seq(trimmed)[i + k]
        == "IF NOT EXISTS"@[k] by {
        assert(lower_seq(trimmed).subrange(i, i + 13)[k] == lower_seq(trimmed)[i + k]);
        lemma_upper_of_lower(trimmed[i + k]);
        assert(lower_seq(trimmed)[i + k] == ascii_lower(trimmed[i + k]));
        assert(ascii_upper("if not exists"@[k]) == "IF NOT EXISTS"@[k]);
    }
    assert(lower_seq(trimmed).len() == trimmed.len());
    assert(upper_seq(trimmed).len() == trimmed.len());
    assert(0 <= i && i + 13 <= upper_seq(trimmed).len());
    assert forall|k: int| 0 <= k < 13 implies #[trigger] upper_seq(trimmed).subrange(i, i + 13)[k]
        == "IF NOT EXISTS"@[k] by {
        assert(upper_seq(trimmed)[i + k] == "IF NOT EXISTS"@[k]);
    }
    assert(upper_seq(trimmed).subrange(i, i + 13) =~= "IF NOT EXISTS"@);
    assert(occurs_at(upper_seq(trimmed), "IF NOT EXISTS"@, i));
}

proof fn lemma_leading_keyword_found(ddl: Seq<char>, keyword: Seq<char>)
    requires
        keyword.len() == 12,
        upper_seq(keyword) == keyword,
        ddl.skip(leading_ws_len(ddl) as int).len() >= 12,
        upper_seq(ddl.skip(leading_ws_len(ddl) as int)).take(12) == keyword,
    ensures
        keyword_insertion(ddl, keyword) == Some(
            ddl.take(leading_ws_len(ddl) as int + 12) + " IF NOT EXISTS"@ + ddl.skip(leading_ws_len(ddl) as int + 12),
        ),
{
    let lw = leading_ws_len(ddl) as int;
    let upper = upper_seq(ddl.skip(lw));
    assert(upper.subrange(0, 12) =~= upper.take(12));
    assert(occurs_at(upper, keyword, 0));
    assert(first_occurrence(upper, keyword, 0));
    lemma_first_index(upper, keyword, 0);
}

/// A schema statement that starts, in any ASCII case and after any leading
/// whitespace, with `DEFINE TABLE`, `DEFINE FIELD` or `DEFINE INDEX` and does
/// not yet say `IF NOT EXISTS` gets ` IF NOT EXISTS` right after that
/// keyword pair, and is otherwise unchanged (a table definition wins over a
/// later field or index keyword, a field definition over a later index one).
pub proof fn lemma_clause_follows_leading_keyword(ddl: Seq<char>)
    requires
        !seq_contains(upper_seq(ddl.skip(leading_ws_len(ddl) as int)), "IF NOT EXISTS"@),
        ddl.skip(leading_ws_len(ddl) as int).len() >= 12,
    ensures
        upper_seq(ddl.skip(leading_ws_len(ddl) as int)).take(12) == "DEFINE TABLE"@ ==> idempotent_ddl(
            ddl,
        ) == ddl.take(leading_ws_len(ddl) as int + 12) + " IF NOT EXISTS"@ + ddl.skip(
            leading_ws_len(ddl) as int + 12,
        ),
        upper_seq(ddl.skip(leading_ws_len(ddl) as int)).take(12) == "DEFINE FIELD"@ && !seq_contains(
            upper_seq(ddl.skip(leading_ws_len(ddl) as int)),
            "DEFINE TABLE"@,
        ) ==> idempotent_ddl(ddl) == ddl.take(leading_ws_len(ddl) as int + 12) + " IF NOT EXISTS"@
            + ddl.skip(leading_ws_len(ddl) as int + 12),
        upper_seq(ddl.skip(leading_ws_len(ddl) as int)).take(12) == "DEFINE INDEX"@ && !seq_contains(
            upper_seq(ddl.skip(leading_ws_len(ddl) as int)),
            "DEFINE TABLE"@,
        ) && !seq_contains(upper_seq(ddl.skip(leading_ws_len(ddl) as int)), "DEFINE FIELD"@)
            ==> idempotent_ddl(ddl) == ddl.take(leading_ws_len(ddl) as int + 12) + " IF NOT EXISTS"@
            + ddl.skip(leading_ws_len(ddl) as int + 12),
{
    reveal_strlit("DEFINE TABLE");
    reveal_strlit("DEFINE FIELD");
    reveal_strlit("DEFINE INDEX");
    reveal_strlit("DEFINE");
    let trimmed = ddl.skip(leading_ws_len(ddl) as int);
    let upper = upper_seq(trimmed);
    assert(upper_seq("DEFINE TABLE"@) =~= "DEFINE TABLE"@);
    assert(upper_seq("DEFINE FIELD"@) =~= "DEFINE FIELD"@);
    assert(upper_seq("DEFINE INDEX"@) =~= "DEFINE INDEX"@);
    if upper.take(12) == "DEFINE TABLE"@ || upper.take(12) == "DEFINE FIELD"@ || upper.take(12)
        == "DEFINE INDEX"@ {
        assert(upper.take(6) =~= upper.take(12).take(6));
        assert(upper.take(6) =~= "DEFINE"@);
        assert(starts_with_define(trimmed));
    }
    if upper.take(12) == "DEFINE TABLE"@ {
        lemma_leading_keyword_found(ddl, "DEFINE TABLE"@);
    }
    if upper.take(12) == "DEFINE FIELD"@ {
        lemma_leading_keyword_found(ddl, "DEFINE FIELD"@);
    }
    if upper.take(12) == "DEFINE INDEX"@ {
        lemma_leading_keyword_found(ddl, "DEFINE INDEX"@);
    }
}

/// What a storage path is found to be when a reset removes it.
#[derive(Debug, Clone, Copy, PartialEq, Eq, Structural)]
pub enum StoragePathState {
    /// A directory.
    Directory,
    /// A file or any other entry that is not a directory.
    File,
    /// Nothing is there.
    Missing,
    /// Its metadata could not be read for another reason.
    Unreadable,
}

/// How a reset removes a storage path.
#[derive(Debug, Clone, Copy, PartialEq, Eq, Structural)]
pub enum StorageRemoval {
    /// Remove the directory and everything in it.
    RemoveDirectory,
    /// Remove the file.
    RemoveFile,
    /// There is nothing to remove.
    Nothing,
    /// Report the error met while reading the path's metadata.
    Fail,
}

/// The removal a reset performs on a storage path: a directory is removed
/// with its contents, anything else as a file, a missing path is fine, and a
/// path whose metadata cannot be read is an error.
pub fn storage_removal(state: StoragePathState) -> (out: StorageRemoval)
    ensures
        state == StoragePathState::Directory ==> out == StorageRemoval::RemoveDirectory,
        state == StoragePathState::File ==> out == StorageRemoval::RemoveFile,
        state == StoragePathState::Missing ==> out == StorageRemoval::Nothing,
        state == StoragePathState::Unreadable ==> out == StorageRemoval::Fail,
{
    match state {
        StoragePathState::Directory => StorageRemoval::RemoveDirectory,
        StoragePathState::File => StorageRemoval::RemoveFile,
        StoragePathState::Missing => StorageRemoval::Nothing,
        StoragePathState::Unreadable => StorageRemoval::Fail,
    }
}

} // verus!
