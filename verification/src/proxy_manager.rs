//! The proxy rule manager: rules persisted in SQLite, run-time state in
//! memory (reset at every start).
use rusqlite::Connection;
use vstd::prelude::*;

use crate::config::{parse_proxy_type, proxy_type_name, proxy_type_of_name, ProxyRule, ProxyRuleModel, ProxyType};
use crate::db::{
    db_execute_batch, db_execute_key, db_execute_row, db_open, db_open_in_memory, db_query_all,
    db_query_by_client, db_query_client_ids, db_query_one, read_error_text, ReadError, json_parse_string_list, json_string_list,
    lemma_ok_ids_distinct, lemma_ok_values_member, ok_values, readable_ids, readable_rows, RuleColumns,
    json_string_list_text, json_text_of_strings, lemma_ok_rows_stored, lemma_all_read_ok_values, all_rows_read, all_read, rows_cover, names_of_client, row_model, rows_read_stored, stored_rows, client_stored, RowModel, RuleRow, DELETE_SQL, INSERT_SQL,
    SCHEMA_MIGRATE_SQL, SCHEMA_SQL, UPDATE_SQL,
};
use crate::runtime::{fresh_state, sampled_state, ProxyStatus, RuntimeState};
use crate::table::NameTable;
use crate::text::{append, owned, string_views};

verus! {

/// A proxy rule with its run-time status.
pub struct ProxyEntry {
    pub rule: ProxyRule,
    pub status: ProxyStatus,
    pub connections: u64,
    /// Bytes received from users in the last measured window.
    pub window_bytes_in: u64,
    /// Bytes sent to users in the last measured window.
    pub window_bytes_out: u64,
    /// Length of that window in nanoseconds (0: no bandwidth measured yet).
    pub window_nanos: u64,
}

/// The domain list stored for a JSON text: the list it holds, or no
/// domains when it holds none.
pub open spec fn stored_domains(text: Seq<char>) -> Seq<Seq<char>> {
    match json_string_list(text) {
        Some(v) => v,
        None => Seq::empty(),
    }
}

/// The rule a stored row stands for.
pub open spec fn rule_of_row(row: RuleRow) -> (ProxyType, Seq<Seq<char>>) {
    (proxy_type_of_name(row.proxy_type@), stored_domains(row.custom_domains@))
}

/// The rule a stored row stands for: its type read back from its name (an
/// unknown name counts as TCP), its domains read back from JSON (unreadable
/// JSON counts as no domains).
pub fn rule_from_row(row: RuleRow) -> (rule: ProxyRule)
    ensures
        rule.name@ == row.name@,
        rule.client_id@ == row.client_id@,
        rule.local_ip@ == row.local_ip@,
        rule.local_port == row.local_port,
        rule.remote_port == row.remote_port,
        rule.proxy_protocol@ == row.proxy_protocol@,
        (rule.proxy_type, string_views(rule.custom_domains@)) == rule_of_row(row),
{
    let proxy_type = parse_proxy_type(row.proxy_type.as_str());
    let custom_domains = match json_parse_string_list(row.custom_domains.as_str()) {
        Some(v) => v,
        None => {
            let v: Vec<String> = Vec::new();
            assert(string_views(v@) =~= Seq::<Seq<char>>::empty());
            v
        },
    };
    ProxyRule {
        name: row.name,
        proxy_type,
        client_id: row.client_id,
        local_ip: row.local_ip,
        local_port: row.local_port,
        remote_port: row.remote_port,
        custom_domains,
        proxy_protocol: row.proxy_protocol,
    }
}

/// The JSON text stored for a domain list (`[]` when none is written).
pub open spec fn domains_text(list: Seq<Seq<char>>) -> Seq<char> {
    match json_text_of_strings(list) {
        Some(t) => t,
        None => "[]"@,
    }
}

/// The row stored for a rule under `name`.
pub fn row_from_rule(name: &str, rule: &ProxyRule) -> (row: RuleRow)
    ensures
        row.name@ == name@,
        row.proxy_type@ == crate::config::proxy_type_name(rule.proxy_type),
        row.client_id@ == rule.client_id@,
        row.local_ip@ == rule.local_ip@,
        row.local_port == rule.local_port,
        row.remote_port == rule.remote_port,
        row.custom_domains@ == domains_text(string_views(rule.custom_domains@)),
        row.proxy_protocol@ == rule.proxy_protocol@,
        json_text_of_strings(string_views(rule.custom_domains@)) is Some ==> stored_domains(
            row.custom_domains@,
        ) == string_views(rule.custom_domains@),
{
    let custom_domains = match json_string_list_text(&rule.custom_domains) {
        Some(t) => t,
        None => owned("[]"),
    };
    RuleRow {
        name: owned(name),
        proxy_type: owned(rule.proxy_type.as_str()),
        client_id: rule.client_id.clone(),
        local_ip: rule.local_ip.clone(),
        local_port: rule.local_port,
        remote_port: rule.remote_port,
        custom_domains,
        proxy_protocol: rule.proxy_protocol.clone(),
    }
}

/// `prefix` followed by `detail`.
fn message(prefix: &str, detail: &str) -> (m: String)
    ensures
        m@ == prefix@ + detail@,
{
    let mut m = owned(prefix);
    append(&mut m, detail);
    m
}

/// The run-time state a rule shows: its own, or that of a fresh rule.
pub open spec fn shown_state(m: Map<Seq<char>, RuntimeState>, name: Seq<char>) -> RuntimeState {
    if m.contains_key(name) {
        m[name]
    } else {
        fresh_state()
    }
}

/// The run-time states after the rule named `name` takes `new_state`, if
/// it has a state; unchanged otherwise.
pub open spec fn state_changed(
    m: Map<Seq<char>, RuntimeState>,
    name: Seq<char>,
    new_state: RuntimeState,
) -> Map<Seq<char>, RuntimeState> {
    if m.contains_key(name) {
        m.insert(name, new_state)
    } else {
        m
    }
}

/// The run-time states after one more connection of `name` opened.
pub open spec fn conn_opened(m: Map<Seq<char>, RuntimeState>, name: Seq<char>) -> Map<
    Seq<char>,
    RuntimeState,
> {
    state_changed(m, name, RuntimeState { connections: (m[name].connections + 1) as u64, ..m[name] })
}

/// The run-time states after a connection of `name` closed (the count
/// stays at zero when it is zero).
pub open spec fn conn_closed(m: Map<Seq<char>, RuntimeState>, name: Seq<char>) -> Map<
    Seq<char>,
    RuntimeState,
> {
    state_changed(
        m,
        name,
        RuntimeState {
            connections: if m[name].connections > 0 {
                (m[name].connections - 1) as u64
            } else {
                0
            },
            ..m[name]
        },
    )
}

/// The run-time states after traffic of `name` was counted.
pub open spec fn traffic_added(
    m: Map<Seq<char>, RuntimeState>,
    name: Seq<char>,
    bytes_in: u64,
    bytes_out: u64,
) -> Map<Seq<char>, RuntimeState> {
    state_changed(
        m,
        name,
        RuntimeState {
            bytes_in: (m[name].bytes_in + bytes_in) as u64,
            bytes_out: (m[name].bytes_out + bytes_out) as u64,
            ..m[name]
        },
    )
}

/// An entry shows the run-time state its rule has in `m`.
pub open spec fn shows_state(e: ProxyEntry, m: Map<Seq<char>, RuntimeState>) -> bool {
    let st = shown_state(m, e.rule.name@);
    &&& e.status == st.status
    &&& e.connections == st.connections
    &&& e.window_bytes_in == st.window_bytes_in
    &&& e.window_bytes_out == st.window_bytes_out
    &&& e.window_nanos == st.window_nanos
}

/// `rule` is the rule that the stored row `row` stands for (see
/// `rule_from_row`).
pub open spec fn rule_read(rule: ProxyRule, row: RowModel) -> bool {
    &&& rule.name@ == row.0
    &&& rule.proxy_type == proxy_type_of_name(row.1)
    &&& rule.client_id@ == row.2
    &&& rule.local_ip@ == row.3
    &&& rule.local_port == row.4
    &&& rule.remote_port == row.5
    &&& string_views(rule.custom_domains@) == stored_domains(row.6)
    &&& rule.proxy_protocol@ == row.7
}

/// The row stored for `rule` under `name` (see `row_from_rule`).
pub open spec fn rule_row(name: Seq<char>, rule: ProxyRuleModel) -> RowModel {
    (
        name,
        proxy_type_name(rule.proxy_type),
        rule.client_id,
        rule.local_ip,
        rule.local_port,
        rule.remote_port,
        domains_text(rule.custom_domains),
        rule.proxy_protocol,
    )
}

/// Every name of `names` is the name of some entry of `out`.
pub open spec fn lists_names(names: Set<Seq<char>>, out: Seq<ProxyEntry>) -> bool {
    forall|k: Seq<char>|
        #[trigger] names.contains(k) ==> exists|i: int| 0 <= i < out.len() && #[trigger] out[i].rule.name@ == k
}

/// A complete listing of stored rules names exactly the stored rules: the
/// names of its entries are the stored names, each once, so it has one
/// entry per stored rule.
pub proof fn lemma_complete_listing(
    rows: Map<Seq<char>, RowModel>,
    m: Map<Seq<char>, RuntimeState>,
    out: Seq<ProxyEntry>,
)
    requires
        entries_stored(rows, m, out),
        lists_names(rows.dom(), out),
    ensures
        out.map_values(|e: ProxyEntry| e.rule.name@).to_set() == rows.dom(),
        out.map_values(|e: ProxyEntry| e.rule.name@).no_duplicates(),
        out.len() == rows.dom().len(),
{
    let names = out.map_values(|e: ProxyEntry| e.rule.name@);
    assert(names.to_set() =~= rows.dom()) by {
        assert forall|k: Seq<char>| names.to_set().contains(k) <==> rows.dom().contains(k) by {
            if names.to_set().contains(k) {
                let i = choose|i: int| 0 <= i < names.len() && names[i] == k;
                assert(out[i].rule.name@ == k);
            }
            if rows.dom().contains(k) {
                let i = choose|i: int| 0 <= i < out.len() && #[trigger] out[i].rule.name@ == k;
                assert(names[i] == k);
            }
        }
    }
    assert(names.no_duplicates()) by {
        assert forall|i: int, j: int| 0 <= i < names.len() && 0 <= j < names.len() && i != j implies names[i]
            != names[j] by {
            if i < j {
                assert(out[i].rule.name@ != out[j].rule.name@);
            } else {
                assert(out[j].rule.name@ != out[i].rule.name@);
            }
        }
    }
    names.unique_seq_to_set();
}

/// Each entry of `out` is the stored rule of its name with the run-time
/// state it shows, and no rule is listed twice.
pub open spec fn entries_stored(
    rows: Map<Seq<char>, RowModel>,
    m: Map<Seq<char>, RuntimeState>,
    out: Seq<ProxyEntry>,
) -> bool {
    &&& forall|i: int|
        #![trigger out[i]]
        0 <= i < out.len() ==> rows.contains_key(out[i].rule.name@) && rule_read(
            out[i].rule,
            rows[out[i].rule.name@],
        ) && shows_state(out[i], m)
    &&& forall|i: int, j: int|
        #![trigger out[i], out[j]]
        0 <= i < j < out.len() ==> out[i].rule.name@ != out[j].rule.name@
}

/// `out` holds, in order, the rules of the stored rows `cols`, each with the
/// run-time state it shows in `m`.
pub open spec fn entries_read(
    m: Map<Seq<char>, RuntimeState>,
    cols: Seq<RuleColumns>,
    out: Seq<ProxyEntry>,
) -> bool {
    &&& out.len() == cols.len()
    &&& forall|i: int|
        #![trigger out[i]]
        0 <= i < out.len() ==> rule_read(out[i].rule, row_model(cols[i])) && shows_state(out[i], m)
}

/// The run-time states after the rules named `names` are loaded: a name
/// that has no state gets a fresh one; the others keep theirs.
pub open spec fn states_loaded(m: Map<Seq<char>, RuntimeState>, names: Seq<Seq<char>>) -> Map<
    Seq<char>,
    RuntimeState,
> {
    Map::new(
        |k: Seq<char>| m.contains_key(k) || names.contains(k),
        |k: Seq<char>|
            if m.contains_key(k) {
                m[k]
            } else {
                fresh_state()
            },
    )
}

/// Proxy rules in SQLite, with run-time state per rule in memory.
pub struct ProxyManager {
    db: Connection,
    runtime: NameTable<RuntimeState>,
}

impl ProxyManager {
    /// The run-time state per rule name.
    pub closed spec fn runtime(&self) -> Map<Seq<char>, RuntimeState> {
        self.runtime@
    }

    /// The run-time table is well formed.
    pub closed spec fn wf(&self) -> bool {
        self.runtime.wf()
    }

    /// The stored rules, by name, as rows of plain values.
    pub closed spec fn rows(&self) -> Map<Seq<char>, RowModel> {
        stored_rows(self.db)
    }

    /// The names with run-time state, in the order they got it.
    pub closed spec fn runtime_names(&self) -> Seq<Seq<char>> {
        self.runtime.names()
    }

    /// A manager over a new in-memory database (used by tests); the text of
    /// the SQLite error when the database cannot be set up.
    pub fn new() -> (r: Result<Self, String>)
        ensures
            r matches Ok(m) ==> m.wf() && m.runtime() == Map::<Seq<char>, RuntimeState>::empty()
                && m.rows() == Map::<Seq<char>, RowModel>::empty(),
            r matches Err(msg) ==> exists|e: Seq<char>|
                msg@ == "创建内存数据库失败: "@ + e || msg@ == "初始化数据库表失败: "@ + e,
    {
        let db = match db_open_in_memory() {
            Ok(db) => db,
            Err(e) => {
                return Err(message("创建内存数据库失败: ", e.as_str()));
            },
        };
        let setup = db_execute_batch(&db, SCHEMA_SQL);
        Self::with_schema(db, setup)
    }

    /// A manager over `db`, with no run-time state.
    pub fn from_connection(db: Connection) -> (m: Self)
        ensures
            m.wf(),
            m.runtime() == Map::<Seq<char>, RuntimeState>::empty(),
            m.rows() == stored_rows(db),
    {
        ProxyManager { db, runtime: NameTable::new() }
    }

    /// The manager over `db` once its schema was set up with the outcome
    /// `setup`: the manager when that worked, else the text of the failure.
    pub fn with_schema(db: Connection, setup: Result<(), String>) -> (r: Result<Self, String>)
        ensures
            setup is Ok ==> (r matches Ok(m) && m.wf() && m.runtime() == Map::<Seq<char>, RuntimeState>::empty()
                && m.rows() == stored_rows(db)),
            setup matches Err(e) ==> (r matches Err(msg) && msg@ == "初始化数据库表失败: "@ + e@),
    {
        match setup {
            Ok(()) => Ok(Self::from_connection(db)),
            Err(e) => Err(message("初始化数据库表失败: ", e.as_str())),
        }
    }

    /// A manager over the database file at `db_path`. The schema is set up;
    /// a failure there (such as the column that older databases lack being
    /// present already) is not an error.
    pub fn open(db_path: &str) -> (r: Result<Self, String>)
        ensures
            r matches Ok(m) ==> m.wf() && m.runtime() == Map::<Seq<char>, RuntimeState>::empty(),
    {
        let db = match db_open(db_path) {
            Ok(db) => db,
            Err(e) => {
                return Err(e);
            },
        };
        let _ = db_execute_batch(&db, SCHEMA_MIGRATE_SQL);
        Ok(Self::from_connection(db))
    }

    /// Adds a rule: refused when a rule of that name has run-time state;
    /// else written to the database and given fresh run-time state.
    pub fn add_proxy(&mut self, rule: ProxyRule) -> (r: Result<(), String>)
        requires
            old(self).wf(),
        ensures
            final(self).wf(),
            old(self).runtime().contains_key(rule.name@) ==> r == Err::<(), String>(
                r->Err_0,
            ) && r->Err_0@ == "代理规则名称已存在: "@ + rule.name@,
            r is Ok ==> final(self).runtime() == old(self).runtime().insert(
                rule.name@,
                fresh_state(),
            ),
            r is Ok ==> !old(self).rows().contains_key(rule.name@) && final(self).rows() == old(
                self,
            ).rows().insert(rule.name@, rule_row(rule.name@, rule.model())),
            r is Err ==> final(self).runtime() == old(self).runtime() && final(self).rows() == old(
                self,
            ).rows(),
            old(self).rows().contains_key(rule.name@) ==> r is Err,
            r matches Err(m) ==> (!old(self).runtime().contains_key(rule.name@) ==> exists|e: Seq<char>|
                m@ == "数据库写入失败: "@ + e),
            r is Ok ==> (json_text_of_strings(rule.model().custom_domains) is Some ==> stored_domains(
                domains_text(rule.model().custom_domains),
            ) == rule.model().custom_domains),
    {
        if self.runtime.contains(rule.name.as_str()) {
            return Err(message("代理规则名称已存在: ", rule.name.as_str()));
        }
        let row = row_from_rule(rule.name.as_str(), &rule);
        let columns = row.into_columns();
        assert(row_model(columns) == rule_row(rule.name@, rule.model()));
        match db_execute_row(&mut self.db, INSERT_SQL, columns) {
            Ok(_) => {},
            Err(e) => {
                return Err(message("数据库写入失败: ", e.as_str()));
            },
        }
        self.runtime.set(rule.name.as_str(), RuntimeState::new());
        Ok(())
    }

    /// Removes a rule from the database and forgets its run-time state;
    /// gives back the rule that was stored.
    pub fn remove_proxy(&mut self, name: &str) -> (r: Result<ProxyRule, String>)
        requires
            old(self).wf(),
        ensures
            final(self).wf(),
            r matches Ok(rule) ==> rule.name@ == name@ && final(self).runtime() == old(
                self,
            ).runtime().remove(name@),
            r matches Ok(rule) ==> old(self).rows().contains_key(name@) && rule_read(
                rule,
                old(self).rows()[name@],
            ) && final(self).rows() == old(self).rows().remove(name@),
            r is Err ==> final(self).runtime() == old(self).runtime() && final(self).rows() == old(
                self,
            ).rows(),
            !old(self).rows().contains_key(name@) ==> r is Err,
            r matches Err(m) ==> exists|e: Seq<char>|
                m@ == "代理规则不存在: "@ + e || m@ == "数据库删除失败: "@ + e,
    {
        let row = match db_query_one(&self.db, name) {
            Ok(c) => RuleRow::from_columns(c),
            Err(e) => {
                let text = read_error_text(e);
                return Err(message("代理规则不存在: ", text.as_str()));
            },
        };
        let rule = rule_from_row(row);
        match db_execute_key(&mut self.db, DELETE_SQL, name) {
            Ok(_) => {},
            Err(e) => {
                return Err(message("数据库删除失败: ", e.as_str()));
            },
        }
        self.runtime.remove(name);
        Ok(rule)
    }

    /// Replaces the stored fields of the rule named `name` (its name stays);
    /// refused when no stored rule has that name.
    pub fn update_proxy(&mut self, name: &str, new_rule: ProxyRule) -> (r: Result<(), String>)
        requires
            old(self).wf(),
        ensures
            final(self).wf(),
            final(self).runtime() == old(self).runtime(),
            r is Ok ==> old(self).rows().contains_key(name@) && final(self).rows() == old(
                self,
            ).rows().insert(name@, rule_row(name@, new_rule.model())),
            r is Err ==> final(self).rows() == old(self).rows(),
            json_text_of_strings(new_rule.model().custom_domains) is Some ==> stored_domains(
                domains_text(new_rule.model().custom_domains),
            ) == new_rule.model().custom_domains,
            !old(self).rows().contains_key(name@) ==> r is Err,
            r matches Err(m) ==> (m@ == "代理规则不存在: "@ + name@ || exists|e: Seq<char>|
                m@ == "数据库更新失败: "@ + e),
            r matches Err(m) ==> (old(self).rows().contains_key(name@) ==> exists|e: Seq<char>|
                m@ == "数据库更新失败: "@ + e),
    {
        let row = row_from_rule(name, &new_rule);
        let columns = row.into_columns();
        assert(row_model(columns) == rule_row(name@, new_rule.model()));
        let outcome = db_execute_row(&mut self.db, UPDATE_SQL, columns);
        Self::update_reply(name, outcome)
    }

    /// The reply to an update of the rule named `name` whose statement had
    /// the outcome `outcome`: its failure text, "no such rule" when it
    /// changed no row, else success.
    pub fn update_reply(name: &str, outcome: Result<usize, String>) -> (r: Result<(), String>)
        ensures
            outcome matches Err(e) ==> (r matches Err(m) && m@ == "数据库更新失败: "@ + e@),
            outcome matches Ok(n) ==> (n == 0 ==> (r matches Err(m) && m@ == "代理规则不存在: "@ + name@)),
            outcome matches Ok(n) ==> (n != 0 ==> r is Ok),
    {
        match outcome {
            Ok(n) => {
                if n == 0 {
                    Err(message("代理规则不存在: ", name))
                } else {
                    Ok(())
                }
            },
            Err(e) => Err(message("数据库更新失败: ", e.as_str())),
        }
    }

    /// A stored rule with the run-time state it shows.
    fn entry_of(&self, rule: ProxyRule) -> (e: ProxyEntry)
        requires
            self.wf(),
        ensures
            e.rule == rule,
            shows_state(e, self.runtime()),
    {
        let rt = match self.runtime.get(rule.name.as_str()) {
            Some(s) => *s,
            None => RuntimeState::new(),
        };
        ProxyEntry {
            rule,
            status: rt.status,
            connections: rt.connections,
            window_bytes_in: rt.window_bytes_in,
            window_bytes_out: rt.window_bytes_out,
            window_nanos: rt.window_nanos,
        }
    }

    /// The stored rule named `name`, with its run-time state; nothing when
    /// no such rule can be read.
    pub fn get_proxy(&self, name: &str) -> (r: Option<ProxyEntry>)
        requires
            self.wf(),
        ensures
            r matches Some(e) ==> e.rule.name@ == name@ && shows_state(e, self.runtime()),
            r matches Some(e) ==> self.rows().contains_key(name@) && rule_read(e.rule, self.rows()[name@]),
            !self.rows().contains_key(name@) ==> r is None,
    {
        let found = db_query_one(&self.db, name);
        self.entry_from_found(found)
    }

    /// The entry for a lookup of one stored rule that had the outcome
    /// `found`: the rule its row stands for, with its run-time state; nothing
    /// when the lookup failed.
    pub fn entry_from_found(&self, found: Result<RuleColumns, ReadError>) -> (r: Option<ProxyEntry>)
        requires
            self.wf(),
        ensures
            found matches Ok(c) ==> (r matches Some(e) && rule_read(e.rule, row_model(c)) && shows_state(e, self.runtime())),
            found is Err ==> r is None,
    {
        match found {
            Ok(c) => Some(self.entry_of(rule_from_row(RuleRow::from_columns(c)))),
            Err(_) => None,
        }
    }

    /// Joins rows with their run-time state.
    fn entries_of(&self, rows: Vec<RuleRow>) -> (out: Vec<ProxyEntry>)
        requires
            self.wf(),
        ensures
            entries_read(self.runtime(), rows@.map_values(|r: RuleRow| r.into_columns_spec()), out@),
    {
        let mut out: Vec<ProxyEntry> = Vec::new();
        let mut rows = rows;
        let ghost all = rows@;
        assert(rows@ =~= all.subrange(0, all.len() as int));
        while rows.len() > 0
            invariant
                self.wf(),
                out@.len() + rows@.len() == all.len(),
                rows@ =~= all.subrange(out@.len() as int, all.len() as int),
                forall|i: int|
                    #![trigger out@[i]]
                    0 <= i < out@.len() ==> rule_read(out@[i].rule, row_model(all[i].into_columns_spec()))
                        && shows_state(out@[i], self.runtime()),
            decreases rows@.len(),
        {
            let ghost k = out@.len() as int;
            let row = rows.remove(0);
            assert(row == all[k]);
            let e = self.entry_of(rule_from_row(row));
            out.push(e);
            assert(rows@ =~= all.subrange(out@.len() as int, all.len() as int));
        }
        out
    }

    /// The entries for a read of stored rules that had the outcome `q`: the
    /// rules of the rows that could be read, in order, each with its run-time
    /// state; none when the read failed.
    pub fn entries_from_query(&self, q: Result<Vec<Result<RuleColumns, String>>, String>) -> (out: Vec<ProxyEntry>)
        requires
            self.wf(),
        ensures
            q matches Ok(v) ==> entries_read(self.runtime(), ok_values(v@), out@),
            q is Err ==> out@.len() == 0,
    {
        let ghost read = q;
        let rows = readable_rows(q);
        let out = self.entries_of(rows);
        proof {
            if let Ok(v) = read {
                assert(rows@.map_values(|r: RuleRow| r.into_columns_spec()) =~= ok_values(v@));
            }
        }
        out
    }

    /// Every stored rule, each once, with its run-time state; none when the
    /// rules cannot be read (the statement fails, or SQLite stops the read
    /// with an error part way).
    pub fn list_proxies(&self) -> (out: Vec<ProxyEntry>)
        requires
            self.wf(),
        ensures
            forall|i: int|
                #![trigger out@[i]]
                0 <= i < out@.len() ==> shows_state(out@[i], self.runtime()),
            entries_stored(self.rows(), self.runtime(), out@),
            out@.len() == 0 || lists_names(self.rows().dom(), out@),
    {
        let q = db_query_all(&self.db);
        let whole = match &q {
            Ok(v) => all_rows_read(v),
            Err(_) => false,
        };
        if !whole {
            return Vec::new();
        }
        let ghost read = q;
        let out = self.entries_from_query(q);
        proof {
            if let Ok(v) = read {
                self.lemma_entries_stored(v@, out@);
                self.lemma_entries_cover(v@, out@, self.rows().dom());
            }
        }
        out
    }

    /// A read with every row read gives an entry for each name it covers.
    proof fn lemma_entries_cover(
        &self,
        v: Seq<Result<RuleColumns, String>>,
        out: Seq<ProxyEntry>,
        names: Set<Seq<char>>,
    )
        requires
            all_read(v),
            rows_cover(v, names),
            entries_read(self.runtime(), ok_values(v), out),
        ensures
            lists_names(names, out),
    {
        lemma_all_read_ok_values(v);
        assert forall|k: Seq<char>| #[trigger] names.contains(k) implies exists|i: int|
            0 <= i < out.len() && #[trigger] out[i].rule.name@ == k by {
            let i = choose|i: int| 0 <= i < v.len() && (#[trigger] v[i] matches Ok(c) && c.0@ == k);
            assert(v[i] == Ok::<RuleColumns, String>(ok_values(v)[i]));
            assert(rule_read(out[i].rule, row_model(ok_values(v)[i])));
            assert(out[i].rule.name@ == k);
        }
    }

    /// Entries read from stored rows are the stored rules of their names,
    /// each once.
    proof fn lemma_entries_stored(&self, v: Seq<Result<RuleColumns, String>>, out: Seq<ProxyEntry>)
        requires
            rows_read_stored(v, self.rows()),
            entries_read(self.runtime(), ok_values(v), out),
        ensures
            entries_stored(self.rows(), self.runtime(), out),
    {
        lemma_ok_rows_stored(v, self.rows());
        let cols = ok_values(v);
        assert forall|i: int| #![trigger out[i]] 0 <= i < out.len() implies self.rows().contains_key(out[i].rule.name@)
            && rule_read(out[i].rule, self.rows()[out[i].rule.name@]) by {
            assert(rule_read(out[i].rule, row_model(cols[i])));
            assert(cols[i].0@ == out[i].rule.name@);
        }
        assert forall|i: int, j: int| #![trigger out[i], out[j]] 0 <= i < j < out.len() implies out[i].rule.name@
            != out[j].rule.name@ by {
            assert(rule_read(out[i].rule, row_model(cols[i])));
            assert(rule_read(out[j].rule, row_model(cols[j])));
            assert(cols[i].0@ != cols[j].0@);
        }
    }

    /// Every stored rule of one client, each once, with its run-time state;
    /// none when the rules cannot be read.
    pub fn list_proxies_by_client(&self, client_id: &str) -> (out: Vec<ProxyEntry>)
        requires
            self.wf(),
        ensures
            forall|i: int|
                #![trigger out@[i]]
                0 <= i < out@.len() ==> out@[i].rule.client_id@ == client_id@ && shows_state(out@[i], self.runtime()),
            entries_stored(self.rows(), self.runtime(), out@),
            out@.len() == 0 || lists_names(names_of_client(self.rows(), client_id@), out@),
    {
        let result = db_query_by_client(&self.db, client_id);
        let whole = match &result {
            Ok(v) => all_rows_read(v),
            Err(_) => false,
        };
        if !whole {
            return Vec::new();
        }
        let ghost read = result;
        let out = self.entries_from_query(result);
        proof {
            match read {
                Ok(v) => {
                    let cols = ok_values(v@);
                    assert forall|i: int| 0 <= i < cols.len() implies (#[trigger] cols[i]).2@ == client_id@ by {
                        lemma_ok_values_member(v@, i);
                        let j = choose|j: int| 0 <= j < v@.len() && v@[j] == Ok::<RuleColumns, String>(ok_values(v@)[i]);
                        assert(v@[j] == Ok::<RuleColumns, String>(cols[i]));
                    }
                    assert forall|i: int| 0 <= i < out@.len() implies (#[trigger] out@[i]).rule.client_id@ == client_id@ by {
                        assert(rule_read(out@[i].rule, row_model(cols[i])));
                    }
                    self.lemma_entries_stored(v@, out@);
                    self.lemma_entries_cover(v@, out@, names_of_client(self.rows(), client_id@));
                },
                Err(_) => {},
            }
        }
        out
    }

    /// The ids of the clients that stored rules name, each once.
    pub fn list_client_ids(&self) -> (ids: Vec<String>)
        ensures
            forall|i: int, j: int| 0 <= i < j < ids@.len() ==> #[trigger] ids@[i]@ != #[trigger] ids@[j]@,
            forall|i: int| 0 <= i < ids@.len() ==> client_stored(self.rows(), #[trigger] ids@[i]@),
    {
        let q = db_query_client_ids(&self.db);
        let ghost read = q;
        let ids = readable_ids(q);
        proof {
            if let Ok(v) = read {
                lemma_ok_ids_distinct(v@);
                assert forall|i: int, j: int| 0 <= i < j < ids@.len() implies #[trigger] ids@[i]@
                    != #[trigger] ids@[j]@ by {
                    assert(ids@[i] == ok_values(v@)[i].0);
                    assert(ids@[j] == ok_values(v@)[j].0);
                }
                assert forall|i: int| 0 <= i < ids@.len() implies client_stored(self.rows(), #[trigger] ids@[i]@) by {
                    lemma_ok_values_member(v@, i);
                    let k = choose|k: int| 0 <= k < v@.len() && v@[k] == Ok::<(String,), String>(ok_values(v@)[i]);
                    assert(v@[k] == Ok::<(String,), String>(ok_values(v@)[i]));
                    assert(ids@[i] == ok_values(v@)[i].0);
                }
            }
        }
        ids
    }

    /// The run-time state of a rule, if it has one.
    pub fn runtime_state(&self, name: &str) -> (r: Option<RuntimeState>)
        requires
            self.wf(),
        ensures
            match r {
                Some(s) => self.runtime().contains_key(name@) && s == self.runtime()[name@],
                None => !self.runtime().contains_key(name@),
            },
    {
        match self.runtime.get(name) {
            Some(s) => Some(*s),
            None => None,
        }
    }

    /// Sets the status of a rule that has run-time state.
    pub fn update_status(&mut self, name: &str, status: ProxyStatus)
        requires
            old(self).wf(),
        ensures
            final(self).wf(),
            final(self).rows() == old(self).rows(),
            final(self).runtime() == state_changed(
                old(self).runtime(),
                name@,
                RuntimeState { status, ..old(self).runtime()[name@] },
            ),
            final(self).runtime_names() == old(self).runtime_names(),
    {
        if let Some(rt) = self.runtime.get(name) {
            let rt = *rt;
            self.runtime.set(name, RuntimeState { status, ..rt });
        }
    }

    /// Counts one more open connection of a rule that has run-time state.
    pub fn inc_connections(&mut self, name: &str)
        requires
            old(self).wf(),
            old(self).runtime().contains_key(name@) ==> old(self).runtime()[name@].connections
                < u64::MAX,
        ensures
            final(self).wf(),
            final(self).rows() == old(self).rows(),
            final(self).runtime() == conn_opened(old(self).runtime(), name@),
            final(self).runtime_names() == old(self).runtime_names(),
    {
        if let Some(rt) = self.runtime.get(name) {
            let rt = *rt;
            self.runtime.set(name, RuntimeState { connections: rt.connections + 1, ..rt });
        }
    }

    /// Counts one connection fewer (never below zero) of a rule that has
    /// run-time state.
    pub fn dec_connections(&mut self, name: &str)
        requires
            old(self).wf(),
        ensures
            final(self).wf(),
            final(self).rows() == old(self).rows(),
            final(self).runtime() == conn_closed(old(self).runtime(), name@),
            final(self).runtime_names() == old(self).runtime_names(),
    {
        if let Some(rt) = self.runtime.get(name) {
            let rt = *rt;
            self.runtime.set(name, RuntimeState { connections: rt.connections.saturating_sub(1), ..rt });
        }
    }

    /// Adds traffic to the byte counters of a rule that has run-time state.
    pub fn add_traffic(&mut self, name: &str, bytes_in: u64, bytes_out: u64)
        requires
            old(self).wf(),
            old(self).runtime().contains_key(name@) ==> old(self).runtime()[name@].bytes_in
                + bytes_in <= u64::MAX && old(self).runtime()[name@].bytes_out + bytes_out
                <= u64::MAX,
        ensures
            final(self).wf(),
            final(self).rows() == old(self).rows(),
            final(self).runtime() == traffic_added(old(self).runtime(), name@, bytes_in, bytes_out),
            final(self).runtime_names() == old(self).runtime_names(),
    {
        if let Some(rt) = self.runtime.get(name) {
            let rt = *rt;
            self.runtime.set(
                name,
                RuntimeState {
                    bytes_in: rt.bytes_in + bytes_in,
                    bytes_out: rt.bytes_out + bytes_out,
                    ..rt
                },
            );
        }
    }

    /// Takes a bandwidth sample of every rule at `now` (nanoseconds on a
    /// monotonic clock): each rule's state becomes its sampled state.
    pub fn update_bandwidth(&mut self, now: u64)
        requires
            old(self).wf(),
        ensures
            final(self).wf(),
            final(self).rows() == old(self).rows(),
            final(self).runtime().dom() == old(self).runtime().dom(),
            forall|k: Seq<char>|
                #[trigger] old(self).runtime().contains_key(k) ==> final(self).runtime()[k]
                    == sampled_state(old(self).runtime()[k], now),
            final(self).runtime_names() == old(self).runtime_names(),
    {
        proof {
            self.runtime.lemma_names();
        }
        let n = self.runtime.len();
        let mut i: usize = 0;
        while i < n
            invariant
                self.wf(),
                n == self.runtime_names().len(),
                i <= n,
                self.runtime_names() == old(self).runtime_names(),
                self.runtime_names().no_duplicates(),
                self.rows() == old(self).rows(),
                self.runtime().dom() == old(self).runtime().dom(),
                forall|j: int|
                    0 <= j < i ==> #[trigger] self.runtime()[self.runtime_names()[j]]
                        == sampled_state(old(self).runtime()[self.runtime_names()[j]], now),
                forall|j: int|
                    i <= j < n ==> #[trigger] self.runtime()[self.runtime_names()[j]] == old(
                        self,
                    ).runtime()[self.runtime_names()[j]],
            decreases n - i,
        {
            proof {
                self.runtime.lemma_names();
            }
            let name = self.runtime.name_at(i).clone();
            let cur = *self.runtime.value_at(i);
            let next = cur.sample(now);
            let ghost names = self.runtime_names();
            let ghost prev = self.runtime();
            assert(prev.contains_key(name@));
            let _ = self.runtime.set(name.as_str(), next);
            assert forall|j: int| 0 <= j < n && j != i implies names[j] != names[i as int] by {}
            assert(self.runtime().dom() =~= old(self).runtime().dom());
            i = i + 1;
        }
        assert forall|k: Seq<char>|
            #[trigger] old(self).runtime().contains_key(k) implies self.runtime()[k]
                == sampled_state(old(self).runtime()[k], now) by {
            self.runtime.lemma_names();
            assert(self.runtime_names().to_set().contains(k));
            let j = choose|j: int| 0 <= j < n && self.runtime_names()[j] == k;
            assert(self.runtime()[self.runtime_names()[j]] == sampled_state(old(self).runtime()[self.runtime_names()[j]], now));
        }
    }

    /// Gives fresh run-time state to every stored rule that has none (run
    /// at start-up); returns how many rules were read.
    pub fn load_from_db(&mut self) -> (n: usize)
        requires
            old(self).wf(),
        ensures
            final(self).wf(),
            final(self).rows() == old(self).rows(),
            exists|names: Seq<Seq<char>>|
                n == names.len() && final(self).runtime() == states_loaded(old(self).runtime(), names)
                    && forall|i: int| 0 <= i < names.len() ==> old(self).rows().contains_key(#[trigger] names[i]),
            forall|k: Seq<char>|
                old(self).runtime().contains_key(k) ==> #[trigger] final(self).runtime().contains_key(
                    k,
                ) && final(self).runtime()[k] == old(self).runtime()[k],
            forall|k: Seq<char>|
                final(self).runtime().contains_key(k) && !old(self).runtime().contains_key(k)
                    ==> #[trigger] final(self).runtime()[k] == fresh_state(),
    {
        let q = db_query_all(&self.db);
        let ghost read = q;
        let rows = readable_rows(q);
        let ghost names = rows@.map_values(|r: RuleRow| r.name@);
        proof {
            if let Ok(v) = read {
                lemma_ok_rows_stored(v@, self.rows());
                assert forall|i: int| 0 <= i < names.len() implies old(self).rows().contains_key(#[trigger] names[i]) by {
                    assert(rows@[i].into_columns_spec() == ok_values(v@)[i]);
                }
            }
        }
        let n = self.load_rows(rows);
        proof {
            let loaded = states_loaded(old(self).runtime(), names);
            assert(n == names.len() && self.runtime() == loaded);
            assert forall|k: Seq<char>|
                old(self).runtime().contains_key(k) implies #[trigger] self.runtime().contains_key(k)
                    && self.runtime()[k] == old(self).runtime()[k] by {
                assert(loaded.contains_key(k));
            }
        }
        n
    }

    /// Gives fresh run-time state to each rule of `rows` that has none;
    /// returns how many rows there were.
    pub fn load_rows(&mut self, rows: Vec<RuleRow>) -> (n: usize)
        requires
            old(self).wf(),
        ensures
            final(self).wf(),
            final(self).rows() == old(self).rows(),
            n == rows@.len(),
            final(self).runtime() == states_loaded(
                old(self).runtime(),
                rows@.map_values(|r: RuleRow| r.name@),
            ),
    {
        let ghost names = rows@.map_values(|r: RuleRow| r.name@);
        let n = rows.len();
        let mut i: usize = 0;
        assert(self.runtime() =~= states_loaded(old(self).runtime(), names.subrange(0, 0)));
        while i < rows.len()
            invariant
                self.wf(),
                i <= rows@.len(),
                names == rows@.map_values(|r: RuleRow| r.name@),
                self.runtime() == states_loaded(old(self).runtime(), names.subrange(0, i as int)),
                self.rows() == old(self).rows(),
            decreases rows@.len() - i,
        {
            let name = rows[i].name.as_str();
            let ghost prev = self.runtime();
            let ghost pre = names.subrange(0, i as int);
            let ghost next = names.subrange(0, i + 1);
            assert(names[i as int] == name@);
            assert(next =~= pre.push(name@));
            if !self.runtime.contains(name) {
                self.runtime.set(name, RuntimeState::new());
            }
            proof {
                let m0 = old(self).runtime();
                assert forall|k: Seq<char>| #[trigger] next.contains(k) <==> (pre.contains(k) || k == name@) by {
                    if next.contains(k) && k != name@ {
                        let j = choose|j: int| 0 <= j < next.len() && next[j] == k;
                        assert(j < pre.len());
                        assert(pre[j] == k);
                    }
                    if pre.contains(k) {
                        let j = choose|j: int| 0 <= j < pre.len() && pre[j] == k;
                        assert(next[j] == k);
                    }
                    if k == name@ {
                        assert(next[i as int] == k);
                    }
                }
                assert forall|k: Seq<char>| #[trigger] self.runtime().contains_key(k) <==> states_loaded(m0, next).contains_key(k) by {
                    if k == name@ {
                        assert(next.contains(k));
                    }
                }
                assert forall|k: Seq<char>| #[trigger] self.runtime().contains_key(k) implies self.runtime()[k] == states_loaded(m0, next)[k] by {
                    if k != name@ {
                        assert(prev.contains_key(k));
                    } else if m0.contains_key(k) {
                        assert(prev.contains_key(k));
                    }
                }
            }
            assert(self.runtime() =~= states_loaded(old(self).runtime(), names.subrange(0, i + 1)));
            i = i + 1;
        }
        assert(names.subrange(0, i as int) =~= names);
        n
    }
}

/// What is stored reads back: the rule read from the row stored for `rule`
/// under `name` is `rule` under that name, with the domains its stored JSON
/// text holds; those are the rule's own when the list was written as JSON.
pub proof fn lemma_stored_rule_reads_back(e: ProxyRule, name: Seq<char>, rule: ProxyRuleModel)
    requires
        rule_read(e, rule_row(name, rule)),
    ensures
        e.model() == (ProxyRuleModel {
            name,
            custom_domains: stored_domains(domains_text(rule.custom_domains)),
            ..rule
        }),
        stored_domains(domains_text(rule.custom_domains)) == rule.custom_domains ==> e.model() == (
        ProxyRuleModel { name, ..rule }),
{
    crate::config::lemma_proxy_type_name_roundtrip(rule.proxy_type);
}

/// A connection that closes undoes the one that opened: the run-time
/// states are as before.
pub proof fn lemma_close_undoes_open(m: Map<Seq<char>, RuntimeState>, name: Seq<char>)
    requires
        m.contains_key(name) ==> m[name].connections < u64::MAX,
    ensures
        conn_closed(conn_opened(m, name), name) == m,
{
    if m.contains_key(name) {
        assert(conn_closed(conn_opened(m, name), name) =~= m);
    }
}

/// The connection count never drops below zero: closing a connection of a
/// rule with none leaves its state as it was.
pub proof fn lemma_close_at_zero(m: Map<Seq<char>, RuntimeState>, name: Seq<char>)
    requires
        m.contains_key(name),
        m[name].connections == 0,
    ensures
        conn_closed(m, name) == m,
{
    assert(conn_closed(m, name) =~= m);
}

/// Bandwidth is the byte increase between two samples over the time
/// between them: a rule sampled at `t1`, then given `d_in` and `d_out`
/// bytes of traffic, then sampled at a later `t2`, has measured a window of
/// `t2 - t1` nanoseconds with exactly that traffic.
pub proof fn lemma_bandwidth_window(
    m: Map<Seq<char>, RuntimeState>,
    name: Seq<char>,
    t1: u64,
    d_in: u64,
    d_out: u64,
    t2: u64,
)
    requires
        m.contains_key(name),
        t1 < t2,
        m[name].bytes_in + d_in <= u64::MAX,
        m[name].bytes_out + d_out <= u64::MAX,
    ensures
        ({
            let s1 = sampled_state(m[name], t1);
            let m2 = traffic_added(m.insert(name, s1), name, d_in, d_out);
            let s3 = sampled_state(m2[name], t2);
            &&& s3.window_bytes_in == d_in
            &&& s3.window_bytes_out == d_out
            &&& s3.window_nanos == t2 - t1
        }),
{
}

} // verus!
