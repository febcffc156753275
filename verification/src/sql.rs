//! The text of the three statements. Each binds its parameters by position
//! and names its result columns `rtc_id` and `send_audio_updated_by`.

use vstd::prelude::*;

verus! {

/// Every primary entity, projected to its id.
pub fn list_statement() -> (sql: &'static str)
    ensures
        sql@ == "SELECT id AS rtc_id FROM rtc"@,
{
    "SELECT id AS rtc_id FROM rtc"
}

/// Every configuration row joined with the entity that owns it; an entity
/// without a configuration row is left out.
pub fn list_with_rtc_statement() -> (sql: &'static str)
    ensures
        sql@
            == "SELECT r.id AS rtc_id, rwc.send_audio_updated_by AS send_audio_updated_by FROM rtc_writer_config AS rwc INNER JOIN rtc AS r ON rwc.rtc_id = r.id"@,
{
    "SELECT r.id AS rtc_id, rwc.send_audio_updated_by AS send_audio_updated_by FROM rtc_writer_config AS rwc INNER JOIN rtc AS r ON rwc.rtc_id = r.id"
}

/// The bulk upsert. The first parameter is the array of entity ids, the
/// second the array of composite agent values, of the same length. The two
/// are unnested row by row; each row is inserted, and where the entity has a
/// row already its value is set to the incoming one, an absent one too.
pub fn bulk_upsert_statement() -> (sql: &'static str)
    ensures
        sql@
            == "WITH input(rtc_id, send_audio_updated_by) AS (SELECT rtc_id, (send_audio_updated_by_account_id, send_audio_updated_by_label)::agent_id FROM UNNEST ($1::uuid[], $2::agent_id[]) AS source(rtc_id, send_audio_updated_by_account_id, send_audio_updated_by_label)) INSERT INTO rtc_writer_config (rtc_id, send_audio_updated_by) (SELECT rtc_id, send_audio_updated_by FROM input) ON CONFLICT (rtc_id) DO UPDATE SET send_audio_updated_by = excluded.send_audio_updated_by RETURNING rtc_id, send_audio_updated_by"@,
{
    "WITH input(rtc_id, send_audio_updated_by) AS (SELECT rtc_id, (send_audio_updated_by_account_id, send_audio_updated_by_label)::agent_id FROM UNNEST ($1::uuid[], $2::agent_id[]) AS source(rtc_id, send_audio_updated_by_account_id, send_audio_updated_by_label)) INSERT INTO rtc_writer_config (rtc_id, send_audio_updated_by) (SELECT rtc_id, send_audio_updated_by FROM input) ON CONFLICT (rtc_id) DO UPDATE SET send_audio_updated_by = excluded.send_audio_updated_by RETURNING rtc_id, send_audio_updated_by"
}

} // verus!
