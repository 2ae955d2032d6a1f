//! Metadata queries: the filter, the records, and the SQL text with its
//! parameters that a filter makes. Running the query happens outside the
//! library.

use crate::common::text::{decimal, hex_digits, push_decimal};
use vstd::prelude::*;
use vstd::string::*;

verus! {

/// Conditions of a metadata query.
#[derive(Debug, Clone)]
pub struct QueryFilter {
    /// Earliest timestamp (ms).
    pub start_time: Option<i64>,
    /// Latest timestamp (ms).
    pub end_time: Option<i64>,
    /// Source address.
    pub src_ip: Option<String>,
    /// Destination address.
    pub dst_ip: Option<String>,
    /// Source port.
    pub src_port: Option<u16>,
    /// Destination port.
    pub dst_port: Option<u16>,
    /// Protocol.
    pub protocol: Option<String>,
    /// Application protocol.
    pub app_protocol: Option<String>,
    /// Maximum number of records.
    pub limit: Option<usize>,
    /// Records to skip.
    pub offset: Option<usize>,
}

impl Default for QueryFilter {
    fn default() -> (f: Self)
        ensures
            f.start_time is None,
            f.end_time is None,
            f.src_ip is None,
            f.dst_ip is None,
            f.src_port is None,
            f.dst_port is None,
            f.protocol is None,
            f.app_protocol is None,
            f.limit is None,
            f.offset is None,
    {
        QueryFilter {
            start_time: None,
            end_time: None,
            src_ip: None,
            dst_ip: None,
            src_port: None,
            dst_port: None,
            protocol: None,
            app_protocol: None,
            limit: None,
            offset: None,
        }
    }
}

/// A stored packet record.
#[derive(Debug, Clone)]
pub struct PacketRecord {
    pub id: i64,
    pub timestamp: i64,
    pub src_ip: String,
    pub dst_ip: String,
    pub src_port: u16,
    pub dst_port: u16,
    pub protocol: String,
    pub transport_protocol: String,
    pub app_protocol: Option<String>,
    pub packet_size: usize,
    pub ja3_hash: Option<String>,
    pub ja3s_hash: Option<String>,
    pub raw_packet_path: Option<String>,
}

/// A value bound to a placeholder of the query.
#[derive(Debug, Clone)]
pub enum SqlParam {
    /// An integer (timestamps).
    Integer(i64),
    /// A port number.
    Port(u16),
    /// A text value.
    Text(String),
}

/// The content of a [`SqlParam`].
pub enum SqlParamView {
    Integer(i64),
    Port(u16),
    Text(Seq<char>),
}

impl View for SqlParam {
    type V = SqlParamView;

    open spec fn view(&self) -> SqlParamView {
        match self {
            SqlParam::Integer(v) => SqlParamView::Integer(*v),
            SqlParam::Port(p) => SqlParamView::Port(*p),
            SqlParam::Text(s) => SqlParamView::Text(s@),
        }
    }
}

/// The query text and its parameters, in placeholder order.
#[derive(Debug, Clone)]
pub struct SqlQuery {
    pub sql: String,
    pub params: Vec<SqlParam>,
}

/// The start of every query: the record columns, all rows.
pub open spec fn select_head() -> Seq<char> {
    "SELECT id, timestamp, src_ip, dst_ip, src_port, dst_port, protocol, transport_protocol, app_protocol, packet_size, ja3_hash, ja3s_hash, raw_packet_path FROM packet_metadata WHERE 1=1"@
}

/// `text` where the condition is set, nothing otherwise.
pub open spec fn when_set(set: bool, text: Seq<char>) -> Seq<char> {
    if set {
        text
    } else {
        Seq::empty()
    }
}

/// The query text of a filter: the record columns of all rows, one `AND`
/// clause with one placeholder per condition set (in the order of the
/// filter's fields), newest records first, then `LIMIT n` and `OFFSET n`
/// where set; an offset without a limit comes after `LIMIT -1` (no limit),
/// as SQLite accepts an offset only behind a limit.
pub open spec fn query_text(f: QueryFilter) -> Seq<char> {
    select_head() + when_set(f.start_time is Some, " AND timestamp >= ?"@) + when_set(
        f.end_time is Some,
        " AND timestamp <= ?"@,
    ) + when_set(f.src_ip is Some, " AND src_ip = ?"@) + when_set(
        f.dst_ip is Some,
        " AND dst_ip = ?"@,
    ) + when_set(f.src_port is Some, " AND src_port = ?"@) + when_set(
        f.dst_port is Some,
        " AND dst_port = ?"@,
    ) + when_set(f.protocol is Some, " AND protocol = ?"@) + when_set(
        f.app_protocol is Some,
        " AND app_protocol = ?"@,
    ) + " ORDER BY timestamp DESC"@ + when_set(
        f.limit is Some,
        " LIMIT "@ + decimal(f.limit.unwrap() as nat),
    ) + when_set(f.limit is None && f.offset is Some, " LIMIT -1"@) + when_set(
        f.offset is Some,
        " OFFSET "@ + decimal(f.offset.unwrap() as nat),
    )
}

/// The parameter of an optional value, as a one-element list.
pub open spec fn param_when<T>(o: Option<T>, p: SqlParamView) -> Seq<SqlParamView> {
    if o is Some {
        seq![p]
    } else {
        Seq::empty()
    }
}

/// The text value of an optional string.
pub open spec fn text_of(o: Option<String>) -> Seq<char> {
    match o {
        Some(s) => s@,
        None => Seq::empty(),
    }
}

/// The parameters of a filter, in the order of its placeholders.
pub open spec fn query_params(f: QueryFilter) -> Seq<SqlParamView> {
    Seq::<SqlParamView>::empty() + param_when(f.start_time, SqlParamView::Integer(f.start_time.unwrap_or(0))) + param_when(
        f.end_time,
        SqlParamView::Integer(f.end_time.unwrap_or(0)),
    ) + param_when(f.src_ip, SqlParamView::Text(text_of(f.src_ip))) + param_when(
        f.dst_ip,
        SqlParamView::Text(text_of(f.dst_ip)),
    ) + param_when(f.src_port, SqlParamView::Port(f.src_port.unwrap_or(0))) + param_when(
        f.dst_port,
        SqlParamView::Port(f.dst_port.unwrap_or(0)),
    ) + param_when(f.protocol, SqlParamView::Text(text_of(f.protocol))) + param_when(
        f.app_protocol,
        SqlParamView::Text(text_of(f.app_protocol)),
    )
}

/// The parameter views of a parameter list.
pub open spec fn param_views(v: Seq<SqlParam>) -> Seq<SqlParamView> {
    v.map_values(|p: SqlParam| p@)
}

/// The number of conditions a filter sets.
pub open spec fn condition_count(f: QueryFilter) -> nat {
    (if f.start_time is Some { 1nat } else { 0nat }) + (if f.end_time is Some { 1nat } else { 0nat })
        + (if f.src_ip is Some { 1nat } else { 0nat }) + (if f.dst_ip is Some { 1nat } else { 0nat })
        + (if f.src_port is Some { 1nat } else { 0nat }) + (if f.dst_port is Some { 1nat } else { 0nat })
        + (if f.protocol is Some { 1nat } else { 0nat }) + (if f.app_protocol is Some { 1nat } else { 0nat })
}

fn add_integer_condition(sql: &mut String, params: &mut Vec<SqlParam>, clause: &str, o: Option<i64>)
    ensures
        final(sql)@ == old(sql)@ + when_set(o is Some, clause@),
        param_views(final(params)@) == param_views(old(params)@) + param_when(
            o,
            SqlParamView::Integer(o.unwrap_or(0)),
        ),
{
    if let Some(v) = o {
        sql.append(clause);
        params.push(SqlParam::Integer(v));
        assert(param_views(params@) =~= param_views(old(params)@) + seq![SqlParamView::Integer(v)]);
    } else {
        assert(old(sql)@ + Seq::<char>::empty() =~= old(sql)@);
        assert(param_views(params@) + Seq::<SqlParamView>::empty() =~= param_views(params@));
    }
}

fn add_port_condition(sql: &mut String, params: &mut Vec<SqlParam>, clause: &str, o: Option<u16>)
    ensures
        final(sql)@ == old(sql)@ + when_set(o is Some, clause@),
        param_views(final(params)@) == param_views(old(params)@) + param_when(
            o,
            SqlParamView::Port(o.unwrap_or(0)),
        ),
{
    if let Some(v) = o {
        sql.append(clause);
        params.push(SqlParam::Port(v));
        assert(param_views(params@) =~= param_views(old(params)@) + seq![SqlParamView::Port(v)]);
    } else {
        assert(old(sql)@ + Seq::<char>::empty() =~= old(sql)@);
        assert(param_views(params@) + Seq::<SqlParamView>::empty() =~= param_views(params@));
    }
}

fn add_text_condition(sql: &mut String, params: &mut Vec<SqlParam>, clause: &str, o: &Option<String>)
    ensures
        final(sql)@ == old(sql)@ + when_set(o is Some, clause@),
        param_views(final(params)@) == param_views(old(params)@) + param_when(
            *o,
            SqlParamView::Text(text_of(*o)),
        ),
{
    if let Some(v) = o {
        sql.append(clause);
        let t = v.clone();
        params.push(SqlParam::Text(t));
        assert(param_views(params@) =~= param_views(old(params)@) + seq![SqlParamView::Text(v@)]);
    } else {
        assert(old(sql)@ + Seq::<char>::empty() =~= old(sql)@);
        assert(param_views(params@) + Seq::<SqlParamView>::empty() =~= param_views(params@));
    }
}

fn add_paging(sql: &mut String, keyword: &str, o: Option<usize>)
    ensures
        final(sql)@ == old(sql)@ + when_set(o is Some, keyword@ + decimal(o.unwrap() as nat)),
{
    if let Some(n) = o {
        sql.append(keyword);
        push_decimal(sql, n as u64);
        assert(final(sql)@ =~= old(sql)@ + (keyword@ + decimal(n as nat)));
    } else {
        assert(old(sql)@ + Seq::<char>::empty() =~= old(sql)@);
    }
}

/// The SQL text and parameters of the query that a filter describes.
pub fn build_query(filter: &QueryFilter) -> (q: SqlQuery)
    ensures
        q.sql@ == query_text(*filter),
        param_views(q.params@) == query_params(*filter),
{
    let mut sql = String::from_str(
        "SELECT id, timestamp, src_ip, dst_ip, src_port, dst_port, protocol, transport_protocol, app_protocol, packet_size, ja3_hash, ja3s_hash, raw_packet_path FROM packet_metadata WHERE 1=1",
    );
    let mut params: Vec<SqlParam> = Vec::new();
    assert(param_views(params@) =~= Seq::<SqlParamView>::empty());
    add_integer_condition(&mut sql, &mut params, " AND timestamp >= ?", filter.start_time);
    add_integer_condition(&mut sql, &mut params, " AND timestamp <= ?", filter.end_time);
    add_text_condition(&mut sql, &mut params, " AND src_ip = ?", &filter.src_ip);
    add_text_condition(&mut sql, &mut params, " AND dst_ip = ?", &filter.dst_ip);
    add_port_condition(&mut sql, &mut params, " AND src_port = ?", filter.src_port);
    add_port_condition(&mut sql, &mut params, " AND dst_port = ?", filter.dst_port);
    add_text_condition(&mut sql, &mut params, " AND protocol = ?", &filter.protocol);
    add_text_condition(&mut sql, &mut params, " AND app_protocol = ?", &filter.app_protocol);
    sql.append(" ORDER BY timestamp DESC");
    add_paging(&mut sql, " LIMIT ", filter.limit);
    if filter.limit.is_none() && filter.offset.is_some() {
        sql.append(" LIMIT -1");
    } else {
        assert(sql@ + Seq::<char>::empty() =~= sql@);
    }
    add_paging(&mut sql, " OFFSET ", filter.offset);
    SqlQuery { sql, params }
}

/// One parameter per condition: the query binds exactly as many values as
/// the filter sets conditions.
pub proof fn lemma_one_parameter_per_condition(f: QueryFilter)
    ensures
        query_params(f).len() == condition_count(f),
{
}

/// The number of `?` placeholders in a query text.
pub open spec fn placeholder_count(s: Seq<char>) -> nat
    decreases s.len(),
{
    if s.len() == 0 {
        0
    } else {
        placeholder_count(s.drop_last()) + (if s.last() == '?' {
            1nat
        } else {
            0nat
        })
    }
}

proof fn lemma_placeholder_concat(a: Seq<char>, b: Seq<char>)
    ensures
        placeholder_count(a + b) == placeholder_count(a) + placeholder_count(b),
    decreases b.len(),
{
    if b.len() == 0 {
        assert(a + b =~= a);
    } else {
        lemma_placeholder_concat(a, b.drop_last());
        assert((a + b).drop_last() =~= a + b.drop_last());
    }
}

proof fn lemma_no_placeholder(s: Seq<char>)
    requires
        forall|i: int| 0 <= i < s.len() ==> s[i] != '?',
    ensures
        placeholder_count(s) == 0,
    decreases s.len(),
{
    if s.len() > 0 {
        lemma_no_placeholder(s.drop_last());
    }
}

proof fn lemma_one_placeholder_at_end(s: Seq<char>)
    requires
        s.len() > 0,
        s.last() == '?',
        forall|i: int| 0 <= i < s.len() - 1 ==> s[i] != '?',
    ensures
        placeholder_count(s) == 1,
{
    lemma_no_placeholder(s.drop_last());
}

proof fn lemma_decimal_no_placeholder(n: nat)
    ensures
        forall|i: int| 0 <= i < decimal(n).len() ==> decimal(n)[i] != '?',
    decreases n,
{
    assert(forall|k: int| 0 <= k < 16 ==> hex_digits()[k] != '?');
    if n >= 10 {
        lemma_decimal_no_placeholder(n / 10);
        let pre = decimal(n / 10);
        assert(decimal(n) == pre.push(hex_digits()[(n % 10) as int]));
        assert forall|i: int| 0 <= i < decimal(n).len() implies decimal(n)[i] != '?' by {
            if i < pre.len() {
                assert(decimal(n)[i] == pre[i]);
            }
        }
    } else {
        assert(decimal(n) == seq![hex_digits()[n as int]]);
    }
}

proof fn lemma_when_set_count(set: bool, text: Seq<char>, c: nat)
    requires
        placeholder_count(text) == c,
    ensures
        placeholder_count(when_set(set, text)) == (if set {
            c
        } else {
            0
        }),
{
}

proof fn lemma_head_count()
    ensures
        placeholder_count(select_head()) == 0,
        placeholder_count(" ORDER BY timestamp DESC"@) == 0,
{
    reveal_strlit(
        "SELECT id, timestamp, src_ip, dst_ip, src_port, dst_port, protocol, transport_protocol, app_protocol, packet_size, ja3_hash, ja3s_hash, raw_packet_path FROM packet_metadata WHERE 1=1",
    );
    reveal_strlit(" ORDER BY timestamp DESC");
    lemma_no_placeholder(select_head());
    lemma_no_placeholder(" ORDER BY timestamp DESC"@);
}

proof fn lemma_clause_counts()
    ensures
        placeholder_count(" AND timestamp >= ?"@) == 1,
        placeholder_count(" AND timestamp <= ?"@) == 1,
        placeholder_count(" AND src_ip = ?"@) == 1,
        placeholder_count(" AND dst_ip = ?"@) == 1,
        placeholder_count(" AND src_port = ?"@) == 1,
        placeholder_count(" AND dst_port = ?"@) == 1,
        placeholder_count(" AND protocol = ?"@) == 1,
        placeholder_count(" AND app_protocol = ?"@) == 1,
{
    reveal_strlit(" AND timestamp >= ?");
    reveal_strlit(" AND timestamp <= ?");
    reveal_strlit(" AND src_ip = ?");
    reveal_strlit(" AND dst_ip = ?");
    reveal_strlit(" AND src_port = ?");
    reveal_strlit(" AND dst_port = ?");
    reveal_strlit(" AND protocol = ?");
    reveal_strlit(" AND app_protocol = ?");
    lemma_one_placeholder_at_end(" AND timestamp >= ?"@);
    lemma_one_placeholder_at_end(" AND timestamp <= ?"@);
    lemma_one_placeholder_at_end(" AND src_ip = ?"@);
    lemma_one_placeholder_at_end(" AND dst_ip = ?"@);
    lemma_one_placeholder_at_end(" AND src_port = ?"@);
    lemma_one_placeholder_at_end(" AND dst_port = ?"@);
    lemma_one_placeholder_at_end(" AND protocol = ?"@);
    lemma_one_placeholder_at_end(" AND app_protocol = ?"@);
}

proof fn lemma_paging_count(keyword: Seq<char>, n: nat)
    requires
        forall|i: int| 0 <= i < keyword.len() ==> keyword[i] != '?',
    ensures
        placeholder_count(keyword + decimal(n)) == 0,
{
    lemma_decimal_no_placeholder(n);
    lemma_no_placeholder(keyword);
    lemma_no_placeholder(decimal(n));
    lemma_placeholder_concat(keyword, decimal(n));
}

proof fn lemma_paging_counts(limit: nat, offset: nat)
    ensures
        placeholder_count(" LIMIT "@ + decimal(limit)) == 0,
        placeholder_count(" OFFSET "@ + decimal(offset)) == 0,
        placeholder_count(" LIMIT -1"@) == 0,
{
    reveal_strlit(" LIMIT ");
    reveal_strlit(" OFFSET ");
    reveal_strlit(" LIMIT -1");
    lemma_no_placeholder(" LIMIT -1"@);
    lemma_paging_count(" LIMIT "@, limit);
    lemma_paging_count(" OFFSET "@, offset);
}

/// Placeholders match parameters: the query text holds exactly one `?` for
/// each value bound to it.
pub proof fn lemma_placeholders_match_parameters(f: QueryFilter)
    ensures
        placeholder_count(query_text(f)) == query_params(f).len(),
{
    lemma_head_count();
    lemma_clause_counts();
    lemma_paging_counts(f.limit.unwrap() as nat, f.offset.unwrap() as nat);
    let p1 = when_set(f.start_time is Some, " AND timestamp >= ?"@);
    let p2 = when_set(f.end_time is Some, " AND timestamp <= ?"@);
    let p3 = when_set(f.src_ip is Some, " AND src_ip = ?"@);
    let p4 = when_set(f.dst_ip is Some, " AND dst_ip = ?"@);
    let p5 = when_set(f.src_port is Some, " AND src_port = ?"@);
    let p6 = when_set(f.dst_port is Some, " AND dst_port = ?"@);
    let p7 = when_set(f.protocol is Some, " AND protocol = ?"@);
    let p8 = when_set(f.app_protocol is Some, " AND app_protocol = ?"@);
    let p9 = " ORDER BY timestamp DESC"@;
    let p10 = when_set(f.limit is Some, " LIMIT "@ + decimal(f.limit.unwrap() as nat));
    let p10b = when_set(f.limit is None && f.offset is Some, " LIMIT -1"@);
    let p11 = when_set(f.offset is Some, " OFFSET "@ + decimal(f.offset.unwrap() as nat));
    lemma_when_set_count(f.start_time is Some, " AND timestamp >= ?"@, 1);
    lemma_when_set_count(f.end_time is Some, " AND timestamp <= ?"@, 1);
    lemma_when_set_count(f.src_ip is Some, " AND src_ip = ?"@, 1);
    lemma_when_set_count(f.dst_ip is Some, " AND dst_ip = ?"@, 1);
    lemma_when_set_count(f.src_port is Some, " AND src_port = ?"@, 1);
    lemma_when_set_count(f.dst_port is Some, " AND dst_port = ?"@, 1);
    lemma_when_set_count(f.protocol is Some, " AND protocol = ?"@, 1);
    lemma_when_set_count(f.app_protocol is Some, " AND app_protocol = ?"@, 1);
    lemma_when_set_count(f.limit is Some, " LIMIT "@ + decimal(f.limit.unwrap() as nat), 0);
    lemma_when_set_count(f.limit is None && f.offset is Some, " LIMIT -1"@, 0);
    lemma_when_set_count(f.offset is Some, " OFFSET "@ + decimal(f.offset.unwrap() as nat), 0);
    let h = select_head();
    lemma_placeholder_concat(h, p1);
    lemma_placeholder_concat(h + p1, p2);
    lemma_placeholder_concat(h + p1 + p2, p3);
    lemma_placeholder_concat(h + p1 + p2 + p3, p4);
    lemma_placeholder_concat(h + p1 + p2 + p3 + p4, p5);
    lemma_placeholder_concat(h + p1 + p2 + p3 + p4 + p5, p6);
    lemma_placeholder_concat(h + p1 + p2 + p3 + p4 + p5 + p6, p7);
    lemma_placeholder_concat(h + p1 + p2 + p3 + p4 + p5 + p6 + p7, p8);
    lemma_placeholder_concat(h + p1 + p2 + p3 + p4 + p5 + p6 + p7 + p8, p9);
    lemma_placeholder_concat(h + p1 + p2 + p3 + p4 + p5 + p6 + p7 + p8 + p9, p10);
    lemma_placeholder_concat(h + p1 + p2 + p3 + p4 + p5 + p6 + p7 + p8 + p9 + p10, p10b);
    lemma_placeholder_concat(h + p1 + p2 + p3 + p4 + p5 + p6 + p7 + p8 + p9 + p10 + p10b, p11);
    lemma_one_parameter_per_condition(f);
}

} // verus!
