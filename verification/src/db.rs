use vstd::prelude::*;

use crate::text::{chars_of, contains_text, occurs_at, text_contains};

verus! {

/// Whether the stored SQL of the `check_logs` table needs repair: it exists
/// and its foreign key still names `proxies_old`, the table that an earlier
/// migration renamed away.
pub open spec fn check_logs_repair_needed(table_sql: Option<String>) -> bool {
    match table_sql {
        Some(sql) => contains_text(sql@, "proxies_old"@),
        None => false,
    }
}

/// Whether the stored SQL of the `proxies` table calls for the migration to a
/// unique key over ip, port and protocol: it exists and lacks that constraint.
pub open spec fn unique_migration_needed(table_sql: Option<String>) -> bool {
    match table_sql {
        Some(sql) => !contains_text(sql@, "UNIQUE(ip, port, protocol)"@),
        None => false,
    }
}

/// Decides, from the `check_logs` table's SQL as the schema catalogue holds it
/// (none when the table is missing), whether its foreign key must be repaired.
pub fn needs_check_logs_repair(table_sql: &Option<String>) -> (res: bool)
    ensures
        res == check_logs_repair_needed(*table_sql),
        table_sql is None ==> !res,
        table_sql matches Some(sql) ==> (res <==> contains_text(sql@, "proxies_old"@)),
{
    match table_sql {
        Some(sql) => {
            let text = chars_of(sql.as_str());
            let pat = chars_of("proxies_old");
            text_contains(&text, &pat)
        },
        None => false,
    }
}

/// Decides, from the `proxies` table's SQL as the schema catalogue holds it
/// (none when the table is missing), whether the table must be rebuilt with a
/// unique key over ip, port and protocol.
pub fn needs_unique_migration(table_sql: &Option<String>) -> (res: bool)
    ensures
        res == unique_migration_needed(*table_sql),
        table_sql is None ==> !res,
        table_sql matches Some(sql) ==> (res <==> !contains_text(
            sql@,
            "UNIQUE(ip, port, protocol)"@,
        )),
{
    match table_sql {
        Some(sql) => {
            let text = chars_of(sql.as_str());
            let pat = chars_of("UNIQUE(ip, port, protocol)");
            !text_contains(&text, &pat)
        },
        None => false,
    }
}

/// Any stored SQL of `check_logs` that mentions `proxies_old` anywhere needs
/// the repair, whatever surrounds the mention; SQL that never mentions it, and
/// a missing table, need none.
pub proof fn law_repair_whenever_old_table_named(before: Seq<char>, after: Seq<char>, sql: String)
    ensures
        sql@ == before + "proxies_old"@ + after ==> check_logs_repair_needed(Some(sql)),
        !contains_text(sql@, "proxies_old"@) ==> !check_logs_repair_needed(Some(sql)),
        !check_logs_repair_needed(None),
{
    if sql@ == before + "proxies_old"@ + after {
        let i = before.len() as int;
        assert(sql@.subrange(i, i + "proxies_old"@.len()) =~= "proxies_old"@);
        assert(occurs_at(sql@, "proxies_old"@, i));
    }
}

/// The proxies table is rebuilt exactly when its stored SQL lacks the text of
/// the unique key over ip, port and protocol: SQL that holds that text
/// anywhere is left alone, and SQL without it, however it mentions protocols
/// otherwise, is migrated.
pub proof fn law_migrate_unless_constraint_present(before: Seq<char>, after: Seq<char>, sql: String)
    ensures
        sql@ == before + "UNIQUE(ip, port, protocol)"@ + after ==> !unique_migration_needed(
            Some(sql),
        ),
        !contains_text(sql@, "UNIQUE(ip, port, protocol)"@) ==> unique_migration_needed(Some(sql)),
        !unique_migration_needed(None),
{
    if sql@ == before + "UNIQUE(ip, port, protocol)"@ + after {
        let i = before.len() as int;
        assert(sql@.subrange(i, i + "UNIQUE(ip, port, protocol)"@.len())
            =~= "UNIQUE(ip, port, protocol)"@);
        assert(occurs_at(sql@, "UNIQUE(ip, port, protocol)"@, i));
    }
}

} // verus!
