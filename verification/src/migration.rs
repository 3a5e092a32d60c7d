//! Bringing an old database up to date: which statements its tables still need.

use crate::text::{join2, same, texts};
use vstd::prelude::*;

verus! {

/// A column of a table.
#[derive(Debug)]
pub struct Column {
    pub table: String,
    pub name: String,
}

/// Whether a table has a column.
pub open spec fn has_column(columns: Seq<Column>, table: Seq<char>, name: Seq<char>) -> bool {
    exists|i: int|
        0 <= i < columns.len() && (#[trigger] columns[i]).table@ == table && columns[i].name@ == name
}

/// Whether a table has a column.
pub fn column_exists(columns: &Vec<Column>, table: &str, name: &str) -> (r: bool)
    ensures
        r == has_column(columns@, table@, name@),
{
    let mut i: usize = 0;
    while i < columns.len()
        invariant
            i <= columns@.len(),
            forall|k: int|
                0 <= k < i ==> !((#[trigger] columns@[k]).table@ == table@ && columns@[k].name@
                    == name@),
        decreases columns@.len() - i,
    {
        if same(columns[i].table.as_str(), table) && same(columns[i].name.as_str(), name) {
            assert(columns@[i as int].table@ == table@ && columns@[i as int].name@ == name@);
            return true;
        }
        i += 1;
    }
    false
}

/// A column that the tables have come to need, and how it is declared.
pub ghost struct Addition {
    pub table: Seq<char>,
    pub name: Seq<char>,
    pub declaration: Seq<char>,
}

/// A column and its declaration.
pub open spec fn addition(table: Seq<char>, name: Seq<char>, declaration: Seq<char>) -> Addition {
    Addition { table, name, declaration }
}

/// The columns that the tables have come to need, in the order they came.
pub open spec fn additions() -> Seq<Addition> {
    seq![
        addition("watch"@, "hmac_secret_prev"@, "TEXT"@),
        addition("watch"@, "hmac_secret_prev_expires"@, "INTEGER"@),
        addition("watch"@, "account_id"@, "TEXT NOT NULL DEFAULT ''"@),
        addition("watch"@, "provider"@, "TEXT NOT NULL DEFAULT ''"@),
        addition("watch"@, "last_metered"@, "INTEGER"@),
        addition("watch"@, "auth_kind"@, "TEXT NOT NULL DEFAULT 'password'"@),
        addition("account"@, "email"@, "TEXT"@),
        addition("account"@, "credits"@, "INTEGER NOT NULL DEFAULT 0"@),
        addition("account"@, "free_credited"@, "INTEGER NOT NULL DEFAULT 0"@),
        addition("watch"@, "watching_until"@, "INTEGER"@),
        addition("watch"@, "auto_renew"@, "INTEGER NOT NULL DEFAULT 0"@),
        addition("checkout_session"@, "quantity"@, "INTEGER NOT NULL DEFAULT 0"@),
        addition("watch"@, "source_kind"@, "TEXT NOT NULL DEFAULT 'imap'"@),
        addition("watch"@, "carddav_url"@, "TEXT"@),
        addition("watch"@, "carddav_sync_token"@, "TEXT"@),
        addition("watch"@, "carddav_poll_secs"@, "INTEGER"@),
        addition("oauth_session"@, "source_kind"@, "TEXT NOT NULL DEFAULT 'imap'"@),
        addition("oauth_session"@, "carddav_url"@, "TEXT"@),
    ]
}

/// The statement that adds a column.
pub open spec fn alter(a: Addition) -> Seq<char> {
    "ALTER TABLE "@ + a.table + " ADD COLUMN "@ + a.name + " "@ + a.declaration
}

/// The statements that add the columns that are not there, in order.
pub open spec fn alters(columns: Seq<Column>, wanted: Seq<Addition>) -> Seq<Seq<char>>
    decreases wanted.len(),
{
    if wanted.len() == 0 {
        Seq::empty()
    } else {
        let before = alters(columns, wanted.drop_last());
        let a = wanted.last();
        if has_column(columns, a.table, a.name) {
            before
        } else {
            before.push(alter(a))
        }
    }
}

/// The statements that give the PIM accounts a protocol: a key cannot be
/// altered, so the table is built anew, and what it holds is taken as IMAP.
pub open spec fn rebuild() -> Seq<char> {
    "CREATE TABLE account_mailbox_new (account_id TEXT NOT NULL, mailbox_key TEXT NOT NULL, protocol TEXT NOT NULL DEFAULT 'imap', login TEXT NOT NULL, imap_host TEXT NOT NULL, imap_port INTEGER NOT NULL DEFAULT 993, base_url TEXT, added_at INTEGER NOT NULL, PRIMARY KEY (account_id, mailbox_key, protocol)); INSERT INTO account_mailbox_new (account_id, mailbox_key, protocol, login, imap_host, imap_port, base_url, added_at) SELECT account_id, mailbox_key, 'imap', login, imap_host, 993, NULL, added_at FROM account_mailbox; DROP TABLE account_mailbox; ALTER TABLE account_mailbox_new RENAME TO account_mailbox;"@
}

/// The statement that gives every service an account: its own, where it has
/// none.
pub open spec fn backfill() -> Seq<char> {
    "UPDATE watch SET account_id = id WHERE account_id = ''"@
}

/// The statements that bring tables with these columns up to date.
pub open spec fn statements_for(columns: Seq<Column>) -> Seq<Seq<char>> {
    let first = if has_column(columns, "account_mailbox"@, "protocol"@) {
        Seq::empty()
    } else {
        seq![rebuild()]
    };
    (first + alters(columns, additions())).push(backfill())
}

/// A column that the tables have come to need.
struct Wanted {
    table: &'static str,
    name: &'static str,
    declaration: &'static str,
}

impl View for Wanted {
    type V = Addition;

    closed spec fn view(&self) -> Addition {
        addition(self.table@, self.name@, self.declaration@)
    }
}

fn wanted(table: &'static str, name: &'static str, declaration: &'static str) -> (r: Wanted)
    ensures
        r@ == addition(table@, name@, declaration@),
{
    Wanted { table, name, declaration }
}

/// The columns that the tables have come to need, in the order they came.
fn wanted_columns() -> (r: Vec<Wanted>)
    ensures
        r@.map_values(|w: Wanted| w@) == additions(),
{
    let r = vec![
        wanted("watch", "hmac_secret_prev", "TEXT"),
        wanted("watch", "hmac_secret_prev_expires", "INTEGER"),
        wanted("watch", "account_id", "TEXT NOT NULL DEFAULT ''"),
        wanted("watch", "provider", "TEXT NOT NULL DEFAULT ''"),
        wanted("watch", "last_metered", "INTEGER"),
        wanted("watch", "auth_kind", "TEXT NOT NULL DEFAULT 'password'"),
        wanted("account", "email", "TEXT"),
        wanted("account", "credits", "INTEGER NOT NULL DEFAULT 0"),
        wanted("account", "free_credited", "INTEGER NOT NULL DEFAULT 0"),
        wanted("watch", "watching_until", "INTEGER"),
        wanted("watch", "auto_renew", "INTEGER NOT NULL DEFAULT 0"),
        wanted("checkout_session", "quantity", "INTEGER NOT NULL DEFAULT 0"),
        wanted("watch", "source_kind", "TEXT NOT NULL DEFAULT 'imap'"),
        wanted("watch", "carddav_url", "TEXT"),
        wanted("watch", "carddav_sync_token", "TEXT"),
        wanted("watch", "carddav_poll_secs", "INTEGER"),
        wanted("oauth_session", "source_kind", "TEXT NOT NULL DEFAULT 'imap'"),
        wanted("oauth_session", "carddav_url", "TEXT"),
    ];
    assert(r@.map_values(|w: Wanted| w@) =~= additions());
    r
}

/// The statements that bring tables with these columns up to date.
pub fn migrate(columns: &Vec<Column>) -> (r: Vec<String>)
    ensures
        texts(r@) == statements_for(columns@),
{
    let mut out: Vec<String> = Vec::new();
    if !column_exists(columns, "account_mailbox", "protocol") {
        out.push(
            "CREATE TABLE account_mailbox_new (account_id TEXT NOT NULL, mailbox_key TEXT NOT NULL, protocol TEXT NOT NULL DEFAULT 'imap', login TEXT NOT NULL, imap_host TEXT NOT NULL, imap_port INTEGER NOT NULL DEFAULT 993, base_url TEXT, added_at INTEGER NOT NULL, PRIMARY KEY (account_id, mailbox_key, protocol)); INSERT INTO account_mailbox_new (account_id, mailbox_key, protocol, login, imap_host, imap_port, base_url, added_at) SELECT account_id, mailbox_key, 'imap', login, imap_host, 993, NULL, added_at FROM account_mailbox; DROP TABLE account_mailbox; ALTER TABLE account_mailbox_new RENAME TO account_mailbox;".to_owned(),
        );
    }
    let ghost head = texts(out@);
    let wanted = wanted_columns();
    let ghost all = wanted@.map_values(|w: Wanted| w@);
    let mut i: usize = 0;
    assert(head =~= head + alters(columns@, all.take(0)));
    while i < wanted.len()
        invariant
            i <= wanted@.len(),
            all == wanted@.map_values(|w: Wanted| w@),
            texts(out@) == head + alters(columns@, all.take(i as int)),
        decreases wanted@.len() - i,
    {
        let ghost before = out@;
        let ghost done = alters(columns@, all.take(i as int));
        let w = &wanted[i];
        assert(all.take(i + 1).drop_last() =~= all.take(i as int));
        if !column_exists(columns, w.table, w.name) {
            let mut s = join2("ALTER TABLE ", w.table);
            s.append(" ADD COLUMN ");
            s.append(w.name);
            s.append(" ");
            s.append(w.declaration);
            out.push(s);
            assert(texts(out@) =~= texts(before).push(alter(w@)));
            assert((head + done).push(alter(w@)) =~= head + done.push(alter(w@)));
        }
        i += 1;
    }
    assert(all.take(i as int) =~= additions());
    let ghost before = out@;
    out.push("UPDATE watch SET account_id = id WHERE account_id = ''".to_owned());
    assert(texts(out@) =~= texts(before).push(backfill()));
    proof {
        let first = if has_column(columns@, "account_mailbox"@, "protocol"@) {
            Seq::<Seq<char>>::empty()
        } else {
            seq![rebuild()]
        };
        assert(head =~= first);
    }
    out
}

proof fn lemma_no_alters(columns: Seq<Column>, wanted: Seq<Addition>)
    requires
        forall|i: int|
            0 <= i < wanted.len() ==> has_column(
                columns,
                (#[trigger] wanted[i]).table,
                wanted[i].name,
            ),
    ensures
        alters(columns, wanted).len() == 0,
    decreases wanted.len(),
{
    if wanted.len() > 0 {
        let t = wanted.drop_last();
        assert forall|i: int| 0 <= i < t.len() implies has_column(
            columns,
            (#[trigger] t[i]).table,
            t[i].name,
        ) by {
            assert(t[i] == wanted[i]);
        }
        lemma_no_alters(columns, t);
        assert(wanted.last() == wanted[wanted.len() - 1]);
    }
}

/// Tables that have every column are left as they are, but for the services
/// without an account.
pub proof fn migrated_tables_are_left_alone(columns: Seq<Column>)
    requires
        has_column(columns, "account_mailbox"@, "protocol"@),
        forall|i: int|
            0 <= i < additions().len() ==> has_column(
                columns,
                (#[trigger] additions()[i]).table,
                additions()[i].name,
            ),
    ensures
        statements_for(columns) == seq![backfill()],
{
    lemma_no_alters(columns, additions());
    assert(statements_for(columns) =~= seq![backfill()]);
}

proof fn lemma_alters(columns: Seq<Column>, wanted: Seq<Addition>, i: int)
    requires
        0 <= i < wanted.len(),
        !has_column(columns, wanted[i].table, wanted[i].name),
    ensures
        alters(columns, wanted).contains(alter(wanted[i])),
    decreases wanted.len(),
{
    let t = wanted.drop_last();
    let all = alters(columns, wanted);
    if i < t.len() {
        lemma_alters(columns, t, i);
        let before = alters(columns, t);
        let k = choose|k: int| 0 <= k < before.len() && before[k] == alter(t[i]);
        assert(all[k] == alter(wanted[i]));
    } else {
        assert(all[all.len() - 1] == alter(wanted[i]));
    }
}

proof fn lemma_altered(columns: Seq<Column>, i: int)
    requires
        0 <= i < additions().len(),
    ensures
        !has_column(columns, additions()[i].table, additions()[i].name) ==> statements_for(
            columns,
        ).contains(alter(additions()[i])),
{
    if !has_column(columns, additions()[i].table, additions()[i].name) {
        let added = alters(columns, additions());
        lemma_alters(columns, additions(), i);
        let k = choose|k: int| 0 <= k < added.len() && added[k] == alter(additions()[i]);
        let all = statements_for(columns);
        if has_column(columns, "account_mailbox"@, "protocol"@) {
            assert(all[k] == added[k]);
        } else {
            assert(all[k + 1] == added[k]);
        }
    }
}

/// An old database gets every column that has come to be needed and that it does
/// not have, with a default that leaves what it holds as it was.
pub proof fn old_tables_get_every_column(columns: Seq<Column>)
    ensures
        additions().len() == 18,
        !has_column(columns, "watch"@, "hmac_secret_prev"@) ==> statements_for(columns).contains(
            "ALTER TABLE "@ + "watch"@ + " ADD COLUMN "@ + "hmac_secret_prev"@ + " "@ + "TEXT"@,
        ),
        !has_column(columns, "watch"@, "hmac_secret_prev_expires"@) ==> statements_for(columns).contains(
            "ALTER TABLE "@ + "watch"@ + " ADD COLUMN "@ + "hmac_secret_prev_expires"@ + " "@ + "INTEGER"@,
        ),
        !has_column(columns, "watch"@, "account_id"@) ==> statements_for(columns).contains(
            "ALTER TABLE "@ + "watch"@ + " ADD COLUMN "@ + "account_id"@ + " "@ + "TEXT NOT NULL DEFAULT ''"@,
        ),
        !has_column(columns, "watch"@, "provider"@) ==> statements_for(columns).contains(
            "ALTER TABLE "@ + "watch"@ + " ADD COLUMN "@ + "provider"@ + " "@ + "TEXT NOT NULL DEFAULT ''"@,
        ),
        !has_column(columns, "watch"@, "last_metered"@) ==> statements_for(columns).contains(
            "ALTER TABLE "@ + "watch"@ + " ADD COLUMN "@ + "last_metered"@ + " "@ + "INTEGER"@,
        ),
        !has_column(columns, "watch"@, "auth_kind"@) ==> statements_for(columns).contains(
            "ALTER TABLE "@ + "watch"@ + " ADD COLUMN "@ + "auth_kind"@ + " "@ + "TEXT NOT NULL DEFAULT 'password'"@,
        ),
        !has_column(columns, "account"@, "email"@) ==> statements_for(columns).contains(
            "ALTER TABLE "@ + "account"@ + " ADD COLUMN "@ + "email"@ + " "@ + "TEXT"@,
        ),
        !has_column(columns, "account"@, "credits"@) ==> statements_for(columns).contains(
            "ALTER TABLE "@ + "account"@ + " ADD COLUMN "@ + "credits"@ + " "@ + "INTEGER NOT NULL DEFAULT 0"@,
        ),
        !has_column(columns, "account"@, "free_credited"@) ==> statements_for(columns).contains(
            "ALTER TABLE "@ + "account"@ + " ADD COLUMN "@ + "free_credited"@ + " "@ + "INTEGER NOT NULL DEFAULT 0"@,
        ),
        !has_column(columns, "watch"@, "watching_until"@) ==> statements_for(columns).contains(
            "ALTER TABLE "@ + "watch"@ + " ADD COLUMN "@ + "watching_until"@ + " "@ + "INTEGER"@,
        ),
        !has_column(columns, "watch"@, "auto_renew"@) ==> statements_for(columns).contains(
            "ALTER TABLE "@ + "watch"@ + " ADD COLUMN "@ + "auto_renew"@ + " "@ + "INTEGER NOT NULL DEFAULT 0"@,
        ),
        !has_column(columns, "checkout_session"@, "quantity"@) ==> statements_for(columns).contains(
            "ALTER TABLE "@ + "checkout_session"@ + " ADD COLUMN "@ + "quantity"@ + " "@ + "INTEGER NOT NULL DEFAULT 0"@,
        ),
        !has_column(columns, "watch"@, "source_kind"@) ==> statements_for(columns).contains(
            "ALTER TABLE "@ + "watch"@ + " ADD COLUMN "@ + "source_kind"@ + " "@ + "TEXT NOT NULL DEFAULT 'imap'"@,
        ),
        !has_column(columns, "watch"@, "carddav_url"@) ==> statements_for(columns).contains(
            "ALTER TABLE "@ + "watch"@ + " ADD COLUMN "@ + "carddav_url"@ + " "@ + "TEXT"@,
        ),
        !has_column(columns, "watch"@, "carddav_sync_token"@) ==> statements_for(columns).contains(
            "ALTER TABLE "@ + "watch"@ + " ADD COLUMN "@ + "carddav_sync_token"@ + " "@ + "TEXT"@,
        ),
        !has_column(columns, "watch"@, "carddav_poll_secs"@) ==> statements_for(columns).contains(
            "ALTER TABLE "@ + "watch"@ + " ADD COLUMN "@ + "carddav_poll_secs"@ + " "@ + "INTEGER"@,
        ),
        !has_column(columns, "oauth_session"@, "source_kind"@) ==> statements_for(columns).contains(
            "ALTER TABLE "@ + "oauth_session"@ + " ADD COLUMN "@ + "source_kind"@ + " "@ + "TEXT NOT NULL DEFAULT 'imap'"@,
        ),
        !has_column(columns, "oauth_session"@, "carddav_url"@) ==> statements_for(columns).contains(
            "ALTER TABLE "@ + "oauth_session"@ + " ADD COLUMN "@ + "carddav_url"@ + " "@ + "TEXT"@,
        ),
{
    lemma_altered(columns, 0);
    lemma_altered(columns, 1);
    lemma_altered(columns, 2);
    lemma_altered(columns, 3);
    lemma_altered(columns, 4);
    lemma_altered(columns, 5);
    lemma_altered(columns, 6);
    lemma_altered(columns, 7);
    lemma_altered(columns, 8);
    lemma_altered(columns, 9);
    lemma_altered(columns, 10);
    lemma_altered(columns, 11);
    lemma_altered(columns, 12);
    lemma_altered(columns, 13);
    lemma_altered(columns, 14);
    lemma_altered(columns, 15);
    lemma_altered(columns, 16);
    lemma_altered(columns, 17);
}

/// A database whose PIM accounts have no protocol has their table built anew
/// before anything else, and every database ends with its services having an
/// account.
pub proof fn old_pim_accounts_get_a_protocol(columns: Seq<Column>)
    ensures
        !has_column(columns, "account_mailbox"@, "protocol"@) ==> statements_for(columns)[0]
            == rebuild(),
        has_column(columns, "account_mailbox"@, "protocol"@) && rebuild() != backfill() ==> (forall|
            i: int,
        |
            0 <= i < statements_for(columns).len() && i < statements_for(columns).len() - 1
                ==> alters(columns, additions()).contains(#[trigger] statements_for(columns)[i])),
        statements_for(columns).last()
            == "UPDATE watch SET account_id = id WHERE account_id = ''"@,
{
    let all = statements_for(columns);
    let added = alters(columns, additions());
    if has_column(columns, "account_mailbox"@, "protocol"@) {
        assert forall|i: int| 0 <= i < all.len() - 1 implies added.contains(#[trigger] all[i]) by {
            assert(all[i] == added[i]);
        }
    }
}

} // verus!
