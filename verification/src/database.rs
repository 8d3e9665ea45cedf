//! The storage layer's computational half: option types, SQL text and
//! parameter construction, row normalization, and the small folds and
//! filters applied to query results.
//!
//! The statements built here are executed against the store by the
//! surrounding application; everything that can be stated as a function of
//! plain values is computed and proved here.

use vstd::prelude::*;

use crate::json::str_eq;

verus! {

/// A single stored record.
#[derive(Debug, PartialEq, Eq)]
pub struct LogEntry {
    pub id: String,
    pub level: i32,
    pub level_label: String,
    pub time: i64,
    pub msg: String,
    pub namespace: Option<String>,
    pub channel: String,
    /// The record's structured payload, held as raw JSON text.
    pub data: String,
    pub encrypted: bool,
    pub encrypted_data: Option<String>,
    pub decryption_failed: bool,
    pub was_encrypted: bool,
}

#[derive(Debug, Clone, PartialEq, Eq)]
pub struct QueryOptions {
    pub search: Option<String>,
    pub use_regex: Option<bool>,
    pub case_sensitive: Option<bool>,
    pub levels: Option<Vec<String>>,
    pub namespaces: Option<Vec<String>>,
    pub min_time: Option<i64>,
    pub channel: Option<String>,
    pub limit: Option<i64>,
    pub offset: Option<i64>,
}

impl Default for QueryOptions {
    fn default() -> (r: QueryOptions)
        ensures
            r.search is None && r.use_regex is None && r.case_sensitive is None,
            r.levels is None && r.namespaces is None && r.min_time is None,
            r.channel is None && r.limit is None && r.offset is None,
    {
        QueryOptions {
            search: None,
            use_regex: None,
            case_sensitive: None,
            levels: None,
            namespaces: None,
            min_time: None,
            channel: None,
            limit: None,
            offset: None,
        }
    }
}

#[derive(Debug, Clone, PartialEq, Eq)]
pub struct CountFilterOptions {
    pub channel: Option<String>,
    pub min_time: Option<i64>,
}

impl Default for CountFilterOptions {
    fn default() -> (r: CountFilterOptions)
        ensures
            r.channel is None && r.min_time is None,
    {
        CountFilterOptions { channel: None, min_time: None }
    }
}

#[derive(Debug, Clone, PartialEq, Eq)]
pub struct LevelCounts {
    pub all: i64,
    pub trace: i64,
    pub debug: i64,
    pub info: i64,
    pub warn: i64,
    pub error: i64,
    pub fatal: i64,
}

impl Default for LevelCounts {
    fn default() -> (r: LevelCounts)
        ensures
            r.all == 0 && r.trace == 0 && r.debug == 0 && r.info == 0,
            r.warn == 0 && r.error == 0 && r.fatal == 0,
    {
        LevelCounts { all: 0, trace: 0, debug: 0, info: 0, warn: 0, error: 0, fatal: 0 }
    }
}

#[derive(Debug, Clone, PartialEq, Eq)]
pub struct DatabaseStats {
    pub channel_count: i64,
    pub total_records: i64,
    pub database_size: i64,
}

#[derive(Debug, Clone, PartialEq, Eq)]
pub struct TimeWindowQueryOptions {
    pub channel: String,
    pub center_time: i64,
    pub window_half_size: i64,
    pub search: Option<String>,
    pub use_regex: Option<bool>,
    pub case_sensitive: Option<bool>,
    pub levels: Option<Vec<String>>,
    pub namespaces: Option<Vec<String>>,
    pub limit: Option<i64>,
}

#[derive(Debug, Clone, PartialEq, Eq)]
pub struct HourlyLogCount {
    pub hour: i64,
    pub count: i64,
}

#[derive(Debug, Clone, PartialEq, Eq)]
pub struct LogTimeRange {
    pub min_time: Option<i64>,
    pub max_time: Option<i64>,
}

#[derive(Debug, Clone, PartialEq, Eq)]
pub struct GetHourlyLogCountsOptions {
    pub channel: String,
    pub min_time: Option<i64>,
}

impl Default for GetHourlyLogCountsOptions {
    fn default() -> (r: GetHourlyLogCountsOptions)
        ensures
            r.channel@ == Seq::<char>::empty() && r.min_time is None,
    {
        GetHourlyLogCountsOptions { channel: String::new(), min_time: None }
    }
}

#[derive(Debug, Clone, PartialEq, Eq)]
pub struct GetLogIndexByTimeOptions {
    pub channel: String,
    pub target_time: i64,
    pub levels: Option<Vec<String>>,
    pub namespaces: Option<Vec<String>>,
    pub min_time: Option<i64>,
    pub search: Option<String>,
}

impl Default for GetLogIndexByTimeOptions {
    fn default() -> (r: GetLogIndexByTimeOptions)
        ensures
            r.channel@ == Seq::<char>::empty() && r.target_time == 0,
            r.levels is None && r.namespaces is None && r.min_time is None && r.search is None,
    {
        GetLogIndexByTimeOptions {
            channel: String::new(),
            target_time: 0,
            levels: None,
            namespaces: None,
            min_time: None,
            search: None,
        }
    }
}

#[derive(Debug, Clone, PartialEq, Eq)]
pub struct SearchMatchCountOptions {
    pub search: String,
    pub channel: Option<String>,
    pub min_time: Option<i64>,
    pub levels: Option<Vec<String>>,
    pub namespaces: Option<Vec<String>>,
    pub log_ids: Option<Vec<String>>,
}

impl Default for SearchMatchCountOptions {
    fn default() -> (r: SearchMatchCountOptions)
        ensures
            r.search@ == Seq::<char>::empty() && r.channel is None && r.min_time is None,
            r.levels is None && r.namespaces is None && r.log_ids is None,
    {
        SearchMatchCountOptions {
            search: String::new(),
            channel: None,
            min_time: None,
            levels: None,
            namespaces: None,
            log_ids: None,
        }
    }
}

#[derive(Debug, Clone, PartialEq, Eq)]
pub struct PruneOptions {
    pub max_age_ms: Option<i64>,
}

impl Default for PruneOptions {
    fn default() -> (r: PruneOptions)
        ensures
            r.max_age_ms is None,
    {
        PruneOptions { max_age_ms: None }
    }
}

/// One positional SQL parameter.
#[derive(Debug, Clone, PartialEq, Eq)]
pub enum SqlParam {
    Text(String),
    Int(i64),
    Null,
}

pub enum SqlParamView {
    Text(Seq<char>),
    Int(i64),
    Null,
}

impl View for SqlParam {
    type V = SqlParamView;

    open spec fn view(&self) -> SqlParamView {
        match self {
            SqlParam::Text(s) => SqlParamView::Text(s@),
            SqlParam::Int(v) => SqlParamView::Int(*v),
            SqlParam::Null => SqlParamView::Null,
        }
    }
}

pub open spec fn params_view(s: Seq<SqlParam>) -> Seq<SqlParamView> {
    s.map_values(|p: SqlParam| p@)
}

impl Clone for LogEntry {
    fn clone(&self) -> (r: LogEntry)
        ensures
            r == *self,
    {
        LogEntry {
            id: self.id.clone(),
            level: self.level,
            level_label: self.level_label.clone(),
            time: self.time,
            msg: self.msg.clone(),
            namespace: match &self.namespace {
                Some(ns) => Some(ns.clone()),
                None => None,
            },
            channel: self.channel.clone(),
            data: self.data.clone(),
            encrypted: self.encrypted,
            encrypted_data: match &self.encrypted_data {
                Some(d) => Some(d.clone()),
                None => None,
            },
            decryption_failed: self.decryption_failed,
            was_encrypted: self.was_encrypted,
        }
    }
}

pub uninterp spec fn json_accepted(s: Seq<char>) -> bool;

/// Relies on `serde_json::from_str::<serde_json::Value>`: whether a text is
/// accepted as JSON is a function of the text alone.
#[verifier::external_body]
fn json_parse_ok(s: &str) -> (r: bool)
    ensures
        r == json_accepted(s@),
{
    serde_json::from_str::<serde_json::Value>(s).is_ok()
}

/// Builds a record from the raw column values of one stored row.  The
/// integer flags are read as 0/1 booleans, and a payload that is not
/// accepted as JSON is replaced by the empty object.
pub fn log_entry_from_row(
    id: String,
    level: i32,
    level_label: String,
    time: i64,
    msg: String,
    namespace: Option<String>,
    channel: String,
    data: String,
    encrypted: i32,
    encrypted_data: Option<String>,
    decryption_failed: i32,
    was_encrypted: i32,
) -> (r: LogEntry)
    ensures
        r.id@ == id@ && r.level == level && r.level_label@ == level_label@ && r.time == time,
        r.msg@ == msg@ && r.namespace == namespace && r.channel@ == channel@,
        r.data@ == if json_accepted(data@) {
            data@
        } else {
            "{}"@
        },
        r.encrypted == (encrypted == 1),
        r.encrypted_data == encrypted_data,
        r.decryption_failed == (decryption_failed == 1),
        r.was_encrypted == (was_encrypted == 1),
{
    let data = if json_parse_ok(data.as_str()) {
        data
    } else {
        String::from_str("{}")
    };
    LogEntry {
        id,
        level,
        level_label,
        time,
        msg,
        namespace,
        channel,
        data,
        encrypted: encrypted == 1,
        encrypted_data,
        decryption_failed: decryption_failed == 1,
        was_encrypted: was_encrypted == 1,
    }
}

/// The positional parameters with which one record is inserted: the
/// column values in table order, booleans stored as 0/1.
pub open spec fn spec_log_entry_params(log: LogEntry) -> Seq<SqlParamView> {
    seq![
        SqlParamView::Text(log.id@),
        SqlParamView::Int(log.level as i64),
        SqlParamView::Text(log.level_label@),
        SqlParamView::Int(log.time),
        SqlParamView::Text(log.msg@),
        match log.namespace {
            Some(ns) => SqlParamView::Text(ns@),
            None => SqlParamView::Null,
        },
        SqlParamView::Text(log.channel@),
        SqlParamView::Text(log.data@),
        SqlParamView::Int(
            if log.encrypted {
                1
            } else {
                0
            },
        ),
        match log.encrypted_data {
            Some(d) => SqlParamView::Text(d@),
            None => SqlParamView::Null,
        },
        SqlParamView::Int(
            if log.decryption_failed {
                1
            } else {
                0
            },
        ),
        SqlParamView::Int(
            if log.was_encrypted {
                1
            } else {
                0
            },
        ),
    ]
}

/// See [`spec_log_entry_params`].
pub fn log_entry_params(log: LogEntry) -> (r: Vec<SqlParam>)
    ensures
        params_view(r@) == spec_log_entry_params(log),
{
    let ghost l = log;
    let LogEntry {
        id,
        level,
        level_label,
        time,
        msg,
        namespace,
        channel,
        data,
        encrypted,
        encrypted_data,
        decryption_failed,
        was_encrypted,
    } = log;
    let r = vec![
        SqlParam::Text(id),
        SqlParam::Int(level as i64),
        SqlParam::Text(level_label),
        SqlParam::Int(time),
        SqlParam::Text(msg),
        match namespace {
            Some(ns) => SqlParam::Text(ns),
            None => SqlParam::Null,
        },
        SqlParam::Text(channel),
        SqlParam::Text(data),
        SqlParam::Int(
            if encrypted {
                1
            } else {
                0
            },
        ),
        match encrypted_data {
            Some(d) => SqlParam::Text(d),
            None => SqlParam::Null,
        },
        SqlParam::Int(
            if decryption_failed {
                1
            } else {
                0
            },
        ),
        SqlParam::Int(
            if was_encrypted {
                1
            } else {
                0
            },
        ),
    ];
    proof {
        assert(params_view(r@) =~= spec_log_entry_params(l));
    }
    r
}

} // verus!

verus! {

/// `?,?,...,?` with `n` placeholders.
pub open spec fn spec_placeholders(n: int) -> Seq<char>
    decreases n,
{
    if n <= 1 {
        "?"@
    } else {
        spec_placeholders(n - 1) + ",?"@
    }
}

/// The decimal text of a signed value.
pub open spec fn spec_dec_i64(v: i64) -> Seq<char> {
    if v >= 0 {
        crate::codec::spec_dec(v as u64)
    } else {
        "-"@ + crate::codec::spec_dec((-(v as int)) as u64)
    }
}

/// See [`spec_dec_i64`].
pub fn dec_i64(v: i64) -> (r: String)
    ensures
        r@ == spec_dec_i64(v),
{
    if v >= 0 {
        crate::codec::dec(v as u64)
    } else {
        let m: u64 = ((-(v + 1)) as u64) + 1;
        proof {
            assert(m == (-(v as int)) as u64);
        }
        let mut out = String::from_str("-");
        let d = crate::codec::dec(m);
        out.append(d.as_str());
        proof {
            assert(out@ =~= spec_dec_i64(v));
        }
        out
    }
}

/// `%<search>%`, the pattern a substring search is run with.
pub open spec fn spec_like_pattern(s: Seq<char>) -> Seq<char> {
    "%"@ + s + "%"@
}

/// See [`spec_like_pattern`].
pub fn like_pattern(s: &str) -> (r: String)
    ensures
        r@ == spec_like_pattern(s@),
{
    let mut out = String::from_str("%");
    out.append(s);
    out.append("%");
    proof {
        assert(out@ =~= spec_like_pattern(s@));
    }
    out
}

pub open spec fn spec_channel_clause(channel: Option<String>) -> Seq<char> {
    match channel {
        Some(_) => " AND channel = ?"@,
        None => Seq::empty(),
    }
}

pub open spec fn spec_min_time_clause(min_time: Option<i64>) -> Seq<char> {
    match min_time {
        Some(_) => " AND time >= ?"@,
        None => Seq::empty(),
    }
}

pub open spec fn spec_levels_clause(levels: Option<Vec<String>>) -> Seq<char> {
    match levels {
        Some(ls) => if ls@.len() > 0 {
            " AND level_label IN ("@ + spec_placeholders(ls@.len() as int) + ")"@
        } else {
            Seq::empty()
        },
        None => Seq::empty(),
    }
}

pub open spec fn spec_namespaces_clause(namespaces: Option<Vec<String>>) -> Seq<char> {
    match namespaces {
        Some(ns) => if ns@.len() > 0 {
            " AND namespace IN ("@ + spec_placeholders(ns@.len() as int) + ")"@
        } else {
            Seq::empty()
        },
        None => Seq::empty(),
    }
}

pub open spec fn spec_search_clause(search: Option<String>) -> Seq<char> {
    match search {
        Some(s) => if s@.len() > 0 {
            " AND (msg LIKE ? OR data LIKE ?)"@
        } else {
            Seq::empty()
        },
        None => Seq::empty(),
    }
}

pub open spec fn spec_opt_text_param(v: Option<String>) -> Seq<SqlParamView> {
    match v {
        Some(s) => seq![SqlParamView::Text(s@)],
        None => Seq::empty(),
    }
}

pub open spec fn spec_opt_int_param(v: Option<i64>) -> Seq<SqlParamView> {
    match v {
        Some(t) => seq![SqlParamView::Int(t)],
        None => Seq::empty(),
    }
}

pub open spec fn spec_text_params(items: Seq<String>) -> Seq<SqlParamView> {
    items.map_values(|s: String| SqlParamView::Text(s@))
}

pub open spec fn spec_opt_vec(items: Option<Vec<String>>) -> Seq<String> {
    match items {
        Some(v) => v@,
        None => Seq::empty(),
    }
}

pub open spec fn spec_search_params(search: Option<String>) -> Seq<SqlParamView> {
    match search {
        Some(s) => if s@.len() > 0 {
            seq![
                SqlParamView::Text(spec_like_pattern(s@)),
                SqlParamView::Text(spec_like_pattern(s@)),
            ]
        } else {
            Seq::empty()
        },
        None => Seq::empty(),
    }
}

/// The parameters of the shared filter clauses, in the order the clauses
/// are appended.
pub open spec fn spec_filter_params(
    channel: Option<String>,
    levels: Option<Vec<String>>,
    namespaces: Option<Vec<String>>,
    min_time: Option<i64>,
    search: Option<String>,
) -> Seq<SqlParamView> {
    spec_opt_text_param(channel) + spec_text_params(spec_opt_vec(levels)) + spec_text_params(
        spec_opt_vec(namespaces),
    ) + spec_opt_int_param(min_time) + spec_search_params(search)
}

pub open spec fn spec_query_limit(options: QueryOptions) -> i64 {
    match options.limit {
        Some(l) => l,
        None => 100,
    }
}

pub open spec fn spec_query_offset(options: QueryOptions) -> i64 {
    match options.offset {
        Some(o) => o,
        None => 0,
    }
}

/// The statement that fetches records under the given filters, newest
/// first, with the given page.
pub open spec fn spec_query_sql(options: QueryOptions) -> Seq<char> {
    "SELECT id, level, level_label, time, msg, namespace, channel, data, encrypted, encrypted_data, decryption_failed, was_encrypted FROM logs WHERE 1=1"@
        + spec_channel_clause(options.channel) + spec_levels_clause(options.levels)
        + spec_namespaces_clause(options.namespaces) + spec_min_time_clause(options.min_time)
        + spec_search_clause(options.search) + " ORDER BY time DESC"@ + " LIMIT "@
        + spec_dec_i64(spec_query_limit(options)) + " OFFSET "@ + spec_dec_i64(
        spec_query_offset(options),
    )
}

pub open spec fn spec_query_params(options: QueryOptions) -> Seq<SqlParamView> {
    spec_filter_params(
        options.channel,
        options.levels,
        options.namespaces,
        options.min_time,
        options.search,
    )
}

/// The statement that counts records under the given filters (the
/// namespace filter does not apply to counting).
pub open spec fn spec_filtered_count_sql(options: QueryOptions) -> Seq<char> {
    "SELECT COUNT(*) FROM logs WHERE 1=1"@ + spec_channel_clause(options.channel)
        + spec_levels_clause(options.levels) + spec_min_time_clause(options.min_time)
        + spec_search_clause(options.search)
}

pub open spec fn spec_filtered_count_params(options: QueryOptions) -> Seq<SqlParamView> {
    spec_filter_params(options.channel, options.levels, None, options.min_time, options.search)
}

#[verifier::loop_isolation(false)]
fn push_placeholders(out: &mut String, n: usize)
    requires
        n >= 1,
    ensures
        final(out)@ == old(out)@ + spec_placeholders(n as int),
{
    out.append("?");
    let mut i: usize = 1;
    while i < n
        invariant
            1 <= i <= n,
            out@ == old(out)@ + spec_placeholders(i as int),
        decreases n - i,
    {
        out.append(",?");
        i += 1;
    }
}

#[verifier::loop_isolation(false)]
fn push_text_params(params: &mut Vec<SqlParam>, items: &Vec<String>)
    ensures
        params_view(final(params)@) == params_view(old(params)@) + spec_text_params(items@),
{
    let mut i: usize = 0;
    proof {
        assert(params_view(params@) =~= params_view(old(params)@) + spec_text_params(
            items@.take(0),
        ));
    }
    while i < items.len()
        invariant
            0 <= i <= items@.len(),
            params_view(params@) == params_view(old(params)@) + spec_text_params(
                items@.take(i as int),
            ),
        decreases items@.len() - i,
    {
        let ghost before = params@;
        params.push(SqlParam::Text(items[i].clone()));
        proof {
            assert(items@.take(i + 1).drop_last() =~= items@.take(i as int));
            assert(spec_text_params(items@.take(i + 1)) =~= spec_text_params(
                items@.take(i as int),
            ).push(SqlParamView::Text(items@[i as int]@)));
            assert(params@ == before.push(SqlParam::Text(items@[i as int])));
            assert(params_view(before.push(SqlParam::Text(items@[i as int]))) =~= params_view(
                before,
            ).push(SqlParamView::Text(items@[i as int]@)));
            assert(params_view(params@) =~= params_view(old(params)@) + spec_text_params(
                items@.take(i + 1),
            ));
        }
        i += 1;
    }
    proof {
        assert(items@.take(items@.len() as int) =~= items@);
    }
}

fn push_channel_clause(sql: &mut String, params: &mut Vec<SqlParam>, channel: &Option<String>)
    ensures
        final(sql)@ == old(sql)@ + spec_channel_clause(*channel),
        params_view(final(params)@) == params_view(old(params)@) + spec_opt_text_param(*channel),
{
    match channel {
        Some(c) => {
            sql.append(" AND channel = ?");
            let ghost before = params@;
            params.push(SqlParam::Text(c.clone()));
            proof {
                assert(params_view(params@) =~= params_view(before).push(
                    SqlParamView::Text(c@),
                ));
                assert(params_view(params@) =~= params_view(old(params)@) + spec_opt_text_param(
                    *channel,
                ));
            }
        },
        None => {
            proof {
                assert(sql@ =~= old(sql)@ + spec_channel_clause(*channel));
                assert(params_view(params@) =~= params_view(old(params)@) + spec_opt_text_param(
                    *channel,
                ));
            }
        },
    }
}

fn push_in_clause_params(params: &mut Vec<SqlParam>, items: &Option<Vec<String>>)
    ensures
        params_view(final(params)@) == params_view(old(params)@) + spec_text_params(
            spec_opt_vec(*items),
        ),
{
    match items {
        Some(ls) => {
            push_text_params(params, ls);
        },
        None => {
            proof {
                assert(spec_text_params(spec_opt_vec(*items)) =~= Seq::<SqlParamView>::empty());
                assert(params_view(params@) =~= params_view(old(params)@) + spec_text_params(
                    spec_opt_vec(*items),
                ));
            }
        },
    }
}

fn push_levels_clause(sql: &mut String, params: &mut Vec<SqlParam>, levels: &Option<Vec<String>>)
    ensures
        final(sql)@ == old(sql)@ + spec_levels_clause(*levels),
        params_view(final(params)@) == params_view(old(params)@) + spec_text_params(
            spec_opt_vec(*levels),
        ),
{
    match levels {
        Some(ls) => {
            if ls.len() > 0 {
                sql.append(" AND level_label IN (");
                push_placeholders(sql, ls.len());
                sql.append(")");
                push_text_params(params, ls);
                proof {
                    assert(sql@ =~= old(sql)@ + spec_levels_clause(*levels));
                }
            } else {
                proof {
                    assert(ls@ =~= Seq::<String>::empty());
                    assert(spec_text_params(ls@) =~= Seq::<SqlParamView>::empty());
                    assert(sql@ =~= old(sql)@ + spec_levels_clause(*levels));
                    assert(params_view(params@) =~= params_view(old(params)@) + spec_text_params(
                        spec_opt_vec(*levels),
                    ));
                }
            }
        },
        None => {
            proof {
                assert(sql@ =~= old(sql)@ + spec_levels_clause(*levels));
                assert(params_view(params@) =~= params_view(old(params)@) + spec_text_params(
                    spec_opt_vec(*levels),
                ));
            }
        },
    }
}

fn push_namespaces_clause(
    sql: &mut String,
    params: &mut Vec<SqlParam>,
    namespaces: &Option<Vec<String>>,
)
    ensures
        final(sql)@ == old(sql)@ + spec_namespaces_clause(*namespaces),
        params_view(final(params)@) == params_view(old(params)@) + spec_text_params(
            spec_opt_vec(*namespaces),
        ),
{
    match namespaces {
        Some(ns) => {
            if ns.len() > 0 {
                sql.append(" AND namespace IN (");
                push_placeholders(sql, ns.len());
                sql.append(")");
                push_text_params(params, ns);
                proof {
                    assert(sql@ =~= old(sql)@ + spec_namespaces_clause(*namespaces));
                }
            } else {
                proof {
                    assert(ns@ =~= Seq::<String>::empty());
                    assert(spec_text_params(ns@) =~= Seq::<SqlParamView>::empty());
                    assert(sql@ =~= old(sql)@ + spec_namespaces_clause(*namespaces));
                    assert(params_view(params@) =~= params_view(old(params)@) + spec_text_params(
                        spec_opt_vec(*namespaces),
                    ));
                }
            }
        },
        None => {
            proof {
                assert(sql@ =~= old(sql)@ + spec_namespaces_clause(*namespaces));
                assert(params_view(params@) =~= params_view(old(params)@) + spec_text_params(
                    spec_opt_vec(*namespaces),
                ));
            }
        },
    }
}

fn push_min_time_clause(sql: &mut String, params: &mut Vec<SqlParam>, min_time: &Option<i64>)
    ensures
        final(sql)@ == old(sql)@ + spec_min_time_clause(*min_time),
        params_view(final(params)@) == params_view(old(params)@) + spec_opt_int_param(*min_time),
{
    match min_time {
        Some(t) => {
            sql.append(" AND time >= ?");
            let ghost before = params@;
            params.push(SqlParam::Int(*t));
            proof {
                assert(params_view(params@) =~= params_view(before).push(SqlParamView::Int(*t)));
                assert(params_view(params@) =~= params_view(old(params)@) + spec_opt_int_param(
                    *min_time,
                ));
            }
        },
        None => {
            proof {
                assert(sql@ =~= old(sql)@ + spec_min_time_clause(*min_time));
                assert(params_view(params@) =~= params_view(old(params)@) + spec_opt_int_param(
                    *min_time,
                ));
            }
        },
    }
}

fn push_search_clause(sql: &mut String, params: &mut Vec<SqlParam>, search: &Option<String>)
    ensures
        final(sql)@ == old(sql)@ + spec_search_clause(*search),
        params_view(final(params)@) == params_view(old(params)@) + spec_search_params(*search),
{
    match search {
        Some(s) => {
            if s.unicode_len() > 0 {
                sql.append(" AND (msg LIKE ? OR data LIKE ?)");
                let p = like_pattern(s.as_str());
                let ghost before = params@;
                params.push(SqlParam::Text(p.clone()));
                let ghost mid = params@;
                params.push(SqlParam::Text(p));
                proof {
                    assert(params_view(mid) =~= params_view(before).push(
                        SqlParamView::Text(spec_like_pattern(s@)),
                    ));
                    assert(params_view(params@) =~= params_view(mid).push(
                        SqlParamView::Text(spec_like_pattern(s@)),
                    ));
                    assert(params_view(params@) =~= params_view(old(params)@)
                        + spec_search_params(*search));
                }
            } else {
                proof {
                    assert(sql@ =~= old(sql)@ + spec_search_clause(*search));
                    assert(params_view(params@) =~= params_view(old(params)@)
                        + spec_search_params(*search));
                }
            }
        },
        None => {
            proof {
                assert(sql@ =~= old(sql)@ + spec_search_clause(*search));
                assert(params_view(params@) =~= params_view(old(params)@) + spec_search_params(
                    *search,
                ));
            }
        },
    }
}

/// Appends the shared filter clauses and their parameters: channel
/// equality, level membership, optionally namespace membership, minimum
/// time, and substring search.
fn push_filters(
    sql: &mut String,
    params: &mut Vec<SqlParam>,
    channel: &Option<String>,
    levels: &Option<Vec<String>>,
    namespaces: &Option<Vec<String>>,
    with_namespaces: bool,
    min_time: &Option<i64>,
    search: &Option<String>,
)
    ensures
        final(sql)@ == old(sql)@ + spec_channel_clause(*channel) + spec_levels_clause(*levels) + (
        if with_namespaces {
            spec_namespaces_clause(*namespaces)
        } else {
            Seq::empty()
        }) + spec_min_time_clause(*min_time) + spec_search_clause(*search),
        params_view(final(params)@) == params_view(old(params)@) + spec_filter_params(
            *channel,
            *levels,
            if with_namespaces {
                *namespaces
            } else {
                None
            },
            *min_time,
            *search,
        ),
{
    push_channel_clause(sql, params, channel);
    push_levels_clause(sql, params, levels);
    if with_namespaces {
        push_namespaces_clause(sql, params, namespaces);
    } else {
        proof {
            assert(sql@ =~= sql@ + Seq::<char>::empty());
            assert(spec_text_params(spec_opt_vec(None)) =~= Seq::<SqlParamView>::empty());
            assert(params_view(params@) =~= params_view(params@) + spec_text_params(
                spec_opt_vec(None),
            ));
        }
    }
    push_min_time_clause(sql, params, min_time);
    push_search_clause(sql, params, search);
    proof {
        assert(final(sql)@ =~= old(sql)@ + spec_channel_clause(*channel) + spec_levels_clause(
            *levels,
        ) + (if with_namespaces {
            spec_namespaces_clause(*namespaces)
        } else {
            Seq::empty()
        }) + spec_min_time_clause(*min_time) + spec_search_clause(*search));
        assert(params_view(final(params)@) =~= params_view(old(params)@) + spec_filter_params(
            *channel,
            *levels,
            if with_namespaces {
                *namespaces
            } else {
                None
            },
            *min_time,
            *search,
        ));
    }
}

/// See [`spec_query_sql`] and [`spec_query_params`].
pub fn build_query_sql(options: &QueryOptions) -> (r: (String, Vec<SqlParam>))
    ensures
        r.0@ == spec_query_sql(*options),
        params_view(r.1@) == spec_query_params(*options),
{
    let mut sql = String::from_str(
        "SELECT id, level, level_label, time, msg, namespace, channel, data, encrypted, encrypted_data, decryption_failed, was_encrypted FROM logs WHERE 1=1",
    );
    let mut params: Vec<SqlParam> = Vec::new();
    proof {
        assert(params_view(params@) =~= Seq::<SqlParamView>::empty());
        assert(params_view(Seq::<SqlParam>::empty()) =~= Seq::<SqlParamView>::empty());
    }
    push_filters(
        &mut sql,
        &mut params,
        &options.channel,
        &options.levels,
        &options.namespaces,
        true,
        &options.min_time,
        &options.search,
    );
    sql.append(" ORDER BY time DESC");
    sql.append(" LIMIT ");
    let lim = match &options.limit {
        Some(l) => *l,
        None => 100,
    };
    let d1 = dec_i64(lim);
    sql.append(d1.as_str());
    sql.append(" OFFSET ");
    let off = match &options.offset {
        Some(o) => *o,
        None => 0,
    };
    let d2 = dec_i64(off);
    sql.append(d2.as_str());
    proof {
        assert(sql@ =~= spec_query_sql(*options));
        assert(params_view(params@) =~= spec_query_params(*options));
    }
    (sql, params)
}

/// See [`spec_filtered_count_sql`] and [`spec_filtered_count_params`].
pub fn build_filtered_count_sql(options: &QueryOptions) -> (r: (String, Vec<SqlParam>))
    ensures
        r.0@ == spec_filtered_count_sql(*options),
        params_view(r.1@) == spec_filtered_count_params(*options),
{
    let mut sql = String::from_str("SELECT COUNT(*) FROM logs WHERE 1=1");
    let mut params: Vec<SqlParam> = Vec::new();
    proof {
        assert(params_view(params@) =~= Seq::<SqlParamView>::empty());
        assert(params_view(Seq::<SqlParam>::empty()) =~= Seq::<SqlParamView>::empty());
    }
    push_filters(
        &mut sql,
        &mut params,
        &options.channel,
        &options.levels,
        &options.namespaces,
        false,
        &options.min_time,
        &options.search,
    );
    proof {
        assert(sql@ =~= spec_filtered_count_sql(*options));
        assert(params_view(params@) =~= spec_filtered_count_params(*options));
    }
    (sql, params)
}

} // verus!

verus! {

/// The statement that counts records per namespace.
pub open spec fn spec_namespace_counts_sql(options: CountFilterOptions) -> Seq<char> {
    "SELECT namespace, COUNT(*) FROM logs WHERE namespace IS NOT NULL"@ + spec_channel_clause(
        options.channel,
    ) + spec_min_time_clause(options.min_time) + " GROUP BY namespace"@
}

pub open spec fn spec_count_filter_params(options: CountFilterOptions) -> Seq<SqlParamView> {
    spec_opt_text_param(options.channel) + spec_opt_int_param(options.min_time)
}

/// See [`spec_namespace_counts_sql`] and [`spec_count_filter_params`].
pub fn build_namespace_counts_sql(options: &CountFilterOptions) -> (r: (String, Vec<SqlParam>))
    ensures
        r.0@ == spec_namespace_counts_sql(*options),
        params_view(r.1@) == spec_count_filter_params(*options),
{
    let mut sql = String::from_str("SELECT namespace, COUNT(*) FROM logs WHERE namespace IS NOT NULL");
    let mut params: Vec<SqlParam> = Vec::new();
    proof {
        assert(params_view(params@) =~= Seq::<SqlParamView>::empty());
    }
    push_channel_clause(&mut sql, &mut params, &options.channel);
    push_min_time_clause(&mut sql, &mut params, &options.min_time);
    sql.append(" GROUP BY namespace");
    proof {
        assert(sql@ =~= spec_namespace_counts_sql(*options));
        assert(params_view(params@) =~= spec_count_filter_params(*options));
    }
    (sql, params)
}

/// The statement that counts records per level label.
pub open spec fn spec_level_counts_sql(options: CountFilterOptions) -> Seq<char> {
    "SELECT level_label, COUNT(*) FROM logs WHERE 1=1"@ + spec_channel_clause(options.channel)
        + spec_min_time_clause(options.min_time) + " GROUP BY level_label"@
}

/// See [`spec_level_counts_sql`] and [`spec_count_filter_params`].
pub fn build_level_counts_sql(options: &CountFilterOptions) -> (r: (String, Vec<SqlParam>))
    ensures
        r.0@ == spec_level_counts_sql(*options),
        params_view(r.1@) == spec_count_filter_params(*options),
{
    let mut sql = String::from_str("SELECT level_label, COUNT(*) FROM logs WHERE 1=1");
    let mut params: Vec<SqlParam> = Vec::new();
    proof {
        assert(params_view(params@) =~= Seq::<SqlParamView>::empty());
    }
    push_channel_clause(&mut sql, &mut params, &options.channel);
    push_min_time_clause(&mut sql, &mut params, &options.min_time);
    sql.append(" GROUP BY level_label");
    proof {
        assert(sql@ =~= spec_level_counts_sql(*options));
        assert(params_view(params@) =~= spec_count_filter_params(*options));
    }
    (sql, params)
}

/// The statement that lists the distinct namespaces, scoped to a channel or
/// not.
pub open spec fn spec_distinct_namespaces_sql(channel_given: bool) -> Seq<char> {
    if channel_given {
        "SELECT DISTINCT namespace FROM logs WHERE channel = ? AND namespace IS NOT NULL ORDER BY namespace"@
    } else {
        "SELECT DISTINCT namespace FROM logs WHERE namespace IS NOT NULL ORDER BY namespace"@
    }
}

/// See [`spec_distinct_namespaces_sql`].
pub fn distinct_namespaces_sql(channel_given: bool) -> (r: String)
    ensures
        r@ == spec_distinct_namespaces_sql(channel_given),
{
    if channel_given {
        String::from_str(
            "SELECT DISTINCT namespace FROM logs WHERE channel = ? AND namespace IS NOT NULL ORDER BY namespace",
        )
    } else {
        String::from_str(
            "SELECT DISTINCT namespace FROM logs WHERE namespace IS NOT NULL ORDER BY namespace",
        )
    }
}

/// The statement that probes for an encrypted or once-encrypted record.
pub open spec fn spec_has_encrypted_sql(channel_given: bool) -> Seq<char> {
    if channel_given {
        "SELECT 1 FROM logs WHERE channel = ? AND (encrypted = 1 OR was_encrypted = 1) LIMIT 1"@
    } else {
        "SELECT 1 FROM logs WHERE encrypted = 1 OR was_encrypted = 1 LIMIT 1"@
    }
}

/// See [`spec_has_encrypted_sql`].
pub fn has_encrypted_sql(channel_given: bool) -> (r: String)
    ensures
        r@ == spec_has_encrypted_sql(channel_given),
{
    if channel_given {
        String::from_str(
            "SELECT 1 FROM logs WHERE channel = ? AND (encrypted = 1 OR was_encrypted = 1) LIMIT 1",
        )
    } else {
        String::from_str("SELECT 1 FROM logs WHERE encrypted = 1 OR was_encrypted = 1 LIMIT 1")
    }
}

/// The statement that fetches the records still to be decrypted, newest
/// first.
pub open spec fn spec_needing_decryption_sql(channel_given: bool) -> Seq<char> {
    "SELECT id, level, level_label, time, msg, namespace, channel, data, encrypted, encrypted_data, decryption_failed, was_encrypted FROM logs WHERE (encrypted = 1 OR decryption_failed = 1)"@
        + (if channel_given {
        " AND channel = ?"@
    } else {
        Seq::empty()
    }) + " ORDER BY time DESC"@
}

/// See [`spec_needing_decryption_sql`].
pub fn needing_decryption_sql(channel_given: bool) -> (r: String)
    ensures
        r@ == spec_needing_decryption_sql(channel_given),
{
    let mut sql = String::from_str(
        "SELECT id, level, level_label, time, msg, namespace, channel, data, encrypted, encrypted_data, decryption_failed, was_encrypted FROM logs WHERE (encrypted = 1 OR decryption_failed = 1)",
    );
    if channel_given {
        sql.append(" AND channel = ?");
    }
    sql.append(" ORDER BY time DESC");
    proof {
        assert(sql@ =~= spec_needing_decryption_sql(channel_given));
    }
    sql
}

/// The statement that buckets one channel's records by hour.
pub open spec fn spec_hourly_counts_sql(options: GetHourlyLogCountsOptions) -> Seq<char> {
    "SELECT (time / 3600000) * 3600000 as hour, COUNT(*) as count FROM logs WHERE channel = ?"@
        + spec_min_time_clause(options.min_time) + " GROUP BY hour ORDER BY hour"@
}

pub open spec fn spec_hourly_counts_params(options: GetHourlyLogCountsOptions) -> Seq<
    SqlParamView,
> {
    seq![SqlParamView::Text(options.channel@)] + spec_opt_int_param(options.min_time)
}

/// See [`spec_hourly_counts_sql`] and [`spec_hourly_counts_params`].
pub fn build_hourly_counts_sql(options: &GetHourlyLogCountsOptions) -> (r: (String, Vec<SqlParam>))
    ensures
        r.0@ == spec_hourly_counts_sql(*options),
        params_view(r.1@) == spec_hourly_counts_params(*options),
{
    let mut sql = String::from_str(
        "SELECT (time / 3600000) * 3600000 as hour, COUNT(*) as count FROM logs WHERE channel = ?",
    );
    let mut params: Vec<SqlParam> = Vec::new();
    params.push(SqlParam::Text(options.channel.clone()));
    proof {
        assert(params_view(params@) =~= seq![SqlParamView::Text(options.channel@)]);
    }
    push_min_time_clause(&mut sql, &mut params, &options.min_time);
    sql.append(" GROUP BY hour ORDER BY hour");
    proof {
        assert(sql@ =~= spec_hourly_counts_sql(*options));
        assert(params_view(params@) =~= spec_hourly_counts_params(*options));
    }
    (sql, params)
}

/// The statement that counts one channel's records strictly after a target
/// time, under the level and minimum-time filters.
pub open spec fn spec_log_index_sql(options: GetLogIndexByTimeOptions) -> Seq<char> {
    "SELECT COUNT(*) FROM logs WHERE channel = ? AND time > ?"@ + spec_levels_clause(
        options.levels,
    ) + spec_min_time_clause(options.min_time)
}

pub open spec fn spec_log_index_params(options: GetLogIndexByTimeOptions) -> Seq<SqlParamView> {
    seq![SqlParamView::Text(options.channel@), SqlParamView::Int(options.target_time)]
        + spec_text_params(spec_opt_vec(options.levels)) + spec_opt_int_param(options.min_time)
}

/// See [`spec_log_index_sql`] and [`spec_log_index_params`].
pub fn build_log_index_sql(options: &GetLogIndexByTimeOptions) -> (r: (String, Vec<SqlParam>))
    ensures
        r.0@ == spec_log_index_sql(*options),
        params_view(r.1@) == spec_log_index_params(*options),
{
    let mut sql = String::from_str("SELECT COUNT(*) FROM logs WHERE channel = ? AND time > ?");
    let mut params: Vec<SqlParam> = Vec::new();
    params.push(SqlParam::Text(options.channel.clone()));
    params.push(SqlParam::Int(options.target_time));
    proof {
        assert(params_view(params@) =~= seq![
            SqlParamView::Text(options.channel@),
            SqlParamView::Int(options.target_time),
        ]);
    }
    push_levels_clause(&mut sql, &mut params, &options.levels);
    push_min_time_clause(&mut sql, &mut params, &options.min_time);
    proof {
        assert(sql@ =~= spec_log_index_sql(*options));
        assert(params_view(params@) =~= spec_log_index_params(*options));
    }
    (sql, params)
}

} // verus!

verus! {

/// The query that a time-window fetch runs: the window's lower edge becomes
/// the minimum time; the upper edge is applied to the fetched rows
/// afterwards.
pub fn window_to_query_options(options: TimeWindowQueryOptions) -> (r: QueryOptions)
    requires
        i64::MIN <= options.center_time - options.window_half_size <= i64::MAX,
    ensures
        r.channel == Some(options.channel),
        r.levels == options.levels,
        r.namespaces == options.namespaces,
        r.search == options.search,
        r.use_regex == options.use_regex,
        r.case_sensitive == options.case_sensitive,
        r.min_time == Some((options.center_time - options.window_half_size) as i64),
        r.limit == options.limit,
        r.offset is None,
{
    let start = options.center_time - options.window_half_size;
    QueryOptions {
        channel: Some(options.channel),
        levels: options.levels,
        namespaces: options.namespaces,
        search: options.search,
        use_regex: options.use_regex,
        case_sensitive: options.case_sensitive,
        min_time: Some(start),
        limit: options.limit,
        offset: None,
    }
}

/// The records of `logs` whose time is at most `end`, in their given order.
pub open spec fn spec_within_end(logs: Seq<LogEntry>, end: i64) -> Seq<LogEntry>
    decreases logs.len(),
{
    if logs.len() == 0 {
        Seq::empty()
    } else {
        let prev = spec_within_end(logs.drop_last(), end);
        if logs.last().time <= end {
            prev.push(logs.last())
        } else {
            prev
        }
    }
}

/// See [`spec_within_end`]: keeps the records at or before the window's
/// upper edge.
#[verifier::loop_isolation(false)]
pub fn filter_by_max_time(logs: Vec<LogEntry>, end: i64) -> (r: Vec<LogEntry>)
    ensures
        r@ == spec_within_end(logs@, end),
        forall|k: int| 0 <= k < r@.len() ==> (#[trigger] r@[k]).time <= end,
{
    let mut r: Vec<LogEntry> = Vec::new();
    let mut i: usize = 0;
    proof {
        assert(logs@.take(0) =~= Seq::<LogEntry>::empty());
    }
    while i < logs.len()
        invariant
            0 <= i <= logs@.len(),
            r@ == spec_within_end(logs@.take(i as int), end),
            forall|k: int| 0 <= k < r@.len() ==> (#[trigger] r@[k]).time <= end,
        decreases logs@.len() - i,
    {
        proof {
            assert(logs@.take(i + 1).drop_last() =~= logs@.take(i as int));
            assert(logs@.take(i + 1).last() == logs@[i as int]);
        }
        if logs[i].time <= end {
            r.push(logs[i].clone());
            proof {
                assert(r@.last() == logs@[i as int]);
                assert(r@ =~= spec_within_end(logs@.take(i + 1), end));
            }
        }
        i += 1;
    }
    proof {
        assert(logs@.take(logs@.len() as int) =~= logs@);
    }
    r
}

/// The filtered count that a search-match count runs: the search string and
/// the other filters, with no paging.
pub fn search_count_query_options(options: SearchMatchCountOptions) -> (r: QueryOptions)
    ensures
        r.search == Some(options.search),
        r.channel == options.channel,
        r.min_time == options.min_time,
        r.levels == options.levels,
        r.namespaces == options.namespaces,
        r.use_regex is None && r.case_sensitive is None && r.limit is None && r.offset is None,
{
    QueryOptions {
        search: Some(options.search),
        use_regex: None,
        case_sensitive: None,
        levels: options.levels,
        namespaces: options.namespaces,
        min_time: options.min_time,
        channel: options.channel,
        limit: None,
        offset: None,
    }
}

/// Assembles the store's statistics; the size is pages times page size.
pub fn database_stats_of(channel_count: i64, total_records: i64, page_count: i64, page_size: i64) -> (r:
    DatabaseStats)
    requires
        i64::MIN <= page_count * page_size <= i64::MAX,
    ensures
        r.channel_count == channel_count,
        r.total_records == total_records,
        r.database_size == page_count * page_size,
{
    DatabaseStats { channel_count, total_records, database_size: page_count * page_size }
}

/// The sum of the per-label counts.
pub open spec fn spec_counts_sum(rows: Seq<(String, i64)>) -> int
    decreases rows.len(),
{
    if rows.len() == 0 {
        0
    } else {
        spec_counts_sum(rows.drop_last()) + rows.last().1
    }
}

/// The per-level totals of a label-count listing: `all` sums every row;
/// each known label's row sets its own field; an unknown label only counts
/// toward `all`.
pub open spec fn spec_level_counts(rows: Seq<(String, i64)>) -> LevelCounts
    decreases rows.len(),
{
    if rows.len() == 0 {
        LevelCounts { all: 0, trace: 0, debug: 0, info: 0, warn: 0, error: 0, fatal: 0 }
    } else {
        let prev = spec_level_counts(rows.drop_last());
        let label = rows.last().0@;
        let count = rows.last().1;
        LevelCounts {
            all: (prev.all + count) as i64,
            trace: if label == "trace"@ {
                count
            } else {
                prev.trace
            },
            debug: if label == "debug"@ {
                count
            } else {
                prev.debug
            },
            info: if label == "info"@ {
                count
            } else {
                prev.info
            },
            warn: if label == "warn"@ {
                count
            } else {
                prev.warn
            },
            error: if label == "error"@ {
                count
            } else {
                prev.error
            },
            fatal: if label == "fatal"@ {
                count
            } else {
                prev.fatal
            },
        }
    }
}

proof fn lemma_counts_sum_take_succ(rows: Seq<(String, i64)>, i: int)
    requires
        0 <= i < rows.len(),
    ensures
        spec_counts_sum(rows.take(i + 1)) == spec_counts_sum(rows.take(i)) + rows[i].1,
{
    assert(rows.take(i + 1).drop_last() =~= rows.take(i));
    assert(rows.take(i + 1).last() == rows[i]);
}

proof fn lemma_counts_sum_nonneg(rows: Seq<(String, i64)>)
    requires
        forall|k: int| 0 <= k < rows.len() ==> (#[trigger] rows[k]).1 >= 0,
    ensures
        spec_counts_sum(rows) >= 0,
    decreases rows.len(),
{
    if rows.len() > 0 {
        assert(forall|k: int|
            0 <= k < rows.drop_last().len() ==> (#[trigger] rows.drop_last()[k]).1 >= 0) by {
            assert(forall|k: int|
                0 <= k < rows.drop_last().len() ==> #[trigger] rows.drop_last()[k] == rows[k]);
        }
        lemma_counts_sum_nonneg(rows.drop_last());
    }
}

proof fn lemma_counts_sum_prefix_bound(rows: Seq<(String, i64)>, i: int)
    requires
        0 <= i <= rows.len(),
        forall|k: int| 0 <= k < rows.len() ==> (#[trigger] rows[k]).1 >= 0,
    ensures
        0 <= spec_counts_sum(rows.take(i)) <= spec_counts_sum(rows),
    decreases rows.len() - i,
{
    assert(forall|k: int|
        0 <= k < rows.take(i).len() ==> (#[trigger] rows.take(i)[k]).1 >= 0) by {
        assert(forall|k: int| 0 <= k < rows.take(i).len() ==> #[trigger] rows.take(i)[k] == rows[k]);
    }
    lemma_counts_sum_nonneg(rows.take(i));
    if i == rows.len() {
        assert(rows.take(i) =~= rows);
    } else {
        lemma_counts_sum_take_succ(rows, i);
        lemma_counts_sum_prefix_bound(rows, i + 1);
    }
}

/// See [`spec_level_counts`]: folds the label-count rows of the grouped
/// query into the per-level totals.  The counts are row counts, so they are
/// not negative, and their sum is required to fit the total's type.
#[verifier::loop_isolation(false)]
pub fn accumulate_level_counts(rows: &Vec<(String, i64)>) -> (r: LevelCounts)
    requires
        forall|k: int| 0 <= k < rows@.len() ==> (#[trigger] rows@[k]).1 >= 0,
        spec_counts_sum(rows@) <= i64::MAX,
    ensures
        r == spec_level_counts(rows@),
{
    let mut acc = LevelCounts { all: 0, trace: 0, debug: 0, info: 0, warn: 0, error: 0, fatal: 0 };
    let mut i: usize = 0;
    proof {
        reveal_strlit("trace");
        reveal_strlit("debug");
        reveal_strlit("info");
        reveal_strlit("warn");
        reveal_strlit("error");
        reveal_strlit("fatal");
        assert(rows@.take(0) =~= Seq::<(String, i64)>::empty());
    }
    while i < rows.len()
        invariant
            0 <= i <= rows@.len(),
            acc == spec_level_counts(rows@.take(i as int)),
            acc.all == spec_counts_sum(rows@.take(i as int)),
        decreases rows@.len() - i,
    {
        proof {
            lemma_counts_sum_take_succ(rows@, i as int);
            lemma_counts_sum_prefix_bound(rows@, i + 1);
            assert(rows@.take(i + 1).drop_last() =~= rows@.take(i as int));
            assert(rows@.take(i + 1).last() == rows@[i as int]);
        }
        let count = rows[i].1;
        acc.all = acc.all + count;
        let label = &rows[i].0;
        if str_eq(label.as_str(), "trace") {
            acc.trace = count;
        }
        if str_eq(label.as_str(), "debug") {
            acc.debug = count;
        }
        if str_eq(label.as_str(), "info") {
            acc.info = count;
        }
        if str_eq(label.as_str(), "warn") {
            acc.warn = count;
        }
        if str_eq(label.as_str(), "error") {
            acc.error = count;
        }
        if str_eq(label.as_str(), "fatal") {
            acc.fatal = count;
        }
        i += 1;
    }
    proof {
        assert(rows@.take(rows@.len() as int) =~= rows@);
    }
    acc
}

/// How old a record may grow before pruning removes it; a week when the
/// options do not say.
pub open spec fn spec_max_age_ms(options: Option<PruneOptions>) -> i64 {
    match options {
        Some(o) => match o.max_age_ms {
            Some(v) => v,
            None => 604800000,
        },
        None => 604800000,
    }
}

/// The cutoff below which records are pruned: the given time minus the
/// maximum age.
pub fn prune_cutoff(now_ms: i64, options: Option<PruneOptions>) -> (r: i64)
    requires
        i64::MIN <= now_ms - spec_max_age_ms(options) <= i64::MAX,
    ensures
        r == now_ms - spec_max_age_ms(options),
{
    let max_age_ms = match options {
        Some(o) => match o.max_age_ms {
            Some(v) => v,
            None => 604800000,
        },
        None => 604800000,
    };
    now_ms - max_age_ms
}

} // verus!

verus! {

/// The statement that reads one edge of a channel's time range.
pub open spec fn spec_time_range_sql(want_max: bool) -> Seq<char> {
    if want_max {
        "SELECT MAX(time) FROM logs WHERE channel = ?"@
    } else {
        "SELECT MIN(time) FROM logs WHERE channel = ?"@
    }
}

/// See [`spec_time_range_sql`].
pub fn time_range_sql(want_max: bool) -> (r: String)
    ensures
        r@ == spec_time_range_sql(want_max),
{
    if want_max {
        String::from_str("SELECT MAX(time) FROM logs WHERE channel = ?")
    } else {
        String::from_str("SELECT MIN(time) FROM logs WHERE channel = ?")
    }
}

/// Assembles a channel's time range from the two edge queries; each edge is
/// absent exactly when the channel has no records.
pub fn log_time_range_of(min_time: Option<i64>, max_time: Option<i64>) -> (r: LogTimeRange)
    ensures
        r.min_time == min_time,
        r.max_time == max_time,
{
    LogTimeRange { min_time, max_time }
}

} // verus!
