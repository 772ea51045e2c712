//! Text of the InfluxQL queries that the service sends to the time-series
//! store, and the time window of the history queries.

use vstd::prelude::*;
use crate::ids::{signed_decimal, signed_decimal_string};

verus! {

/// Text of the query for the strain values of one blade section between two times, oldest first.
pub open spec fn strain_history_query_text(retention_policy: Seq<char>, turbine_id: Seq<char>, blade_id: Seq<char>, section: Seq<char>, start_time: Seq<char>, end_time: Seq<char>) -> Seq<char> {
    "SELECT time, strain_value FROM \""@ + retention_policy + "\".\"strain_data\" \n               WHERE turbine_id = '"@ + turbine_id + "' AND blade_id = '"@ + blade_id + "' AND section = '"@ + section + "'\n               AND time >= '"@ + start_time + "' AND time <= '"@ + end_time + "'\n               ORDER BY time ASC"@
}

/// Builds the query for the strain values of one blade section between two times, oldest first.
pub fn strain_history_query(retention_policy: &str, turbine_id: &str, blade_id: &str, section: &str, start_time: &str, end_time: &str) -> (r: String)
    ensures
        r@ == strain_history_query_text(retention_policy@, turbine_id@, blade_id@, section@, start_time@, end_time@),
{
    let mut q = String::from_str("SELECT time, strain_value FROM \"");
    q.append(retention_policy);
    q.append("\".\"strain_data\" \n               WHERE turbine_id = '");
    q.append(turbine_id);
    q.append("' AND blade_id = '");
    q.append(blade_id);
    q.append("' AND section = '");
    q.append(section);
    q.append("'\n               AND time >= '");
    q.append(start_time);
    q.append("' AND time <= '");
    q.append(end_time);
    q.append("'\n               ORDER BY time ASC");
    q
}

/// Text of the query for the acoustic-emission events of one blade section between two times, oldest first.
pub open spec fn ae_events_query_text(retention_policy: Seq<char>, turbine_id: Seq<char>, blade_id: Seq<char>, section: Seq<char>, start_time: Seq<char>, end_time: Seq<char>) -> Seq<char> {
    "SELECT time, amplitude, duration, frequency_peak FROM \""@ + retention_policy + "\".\"ae_events\" \n               WHERE turbine_id = '"@ + turbine_id + "' AND blade_id = '"@ + blade_id + "' AND section = '"@ + section + "'\n               AND time >= '"@ + start_time + "' AND time <= '"@ + end_time + "'\n               ORDER BY time ASC"@
}

/// Builds the query for the acoustic-emission events of one blade section between two times, oldest first.
pub fn ae_events_query(retention_policy: &str, turbine_id: &str, blade_id: &str, section: &str, start_time: &str, end_time: &str) -> (r: String)
    ensures
        r@ == ae_events_query_text(retention_policy@, turbine_id@, blade_id@, section@, start_time@, end_time@),
{
    let mut q = String::from_str("SELECT time, amplitude, duration, frequency_peak FROM \"");
    q.append(retention_policy);
    q.append("\".\"ae_events\" \n               WHERE turbine_id = '");
    q.append(turbine_id);
    q.append("' AND blade_id = '");
    q.append(blade_id);
    q.append("' AND section = '");
    q.append(section);
    q.append("'\n               AND time >= '");
    q.append(start_time);
    q.append("' AND time <= '");
    q.append(end_time);
    q.append("'\n               ORDER BY time ASC");
    q
}

/// Filter on the acknowledgement flag of alarms, if one is asked for.
pub open spec fn ack_filter_text(acknowledged: Option<i32>) -> Seq<char> {
    match acknowledged {
        Some(v) => "AND acknowledged = "@ + signed_decimal(v as int),
        None => Seq::empty(),
    }
}

/// Text of the query for the alarms of the last seven days, newest first.
pub open spec fn alarms_query_text(limit: i64, acknowledged: Option<i32>) -> Seq<char> {
    "SELECT time, alarm_id, turbine_id, blade_id, alarm_level, alarm_type, \n                      message, threshold, actual_value, acknowledged, mes_pushed\n               FROM \"daily_agg\".\"alarms\"\n               WHERE time > now() - 7d "@ + ack_filter_text(acknowledged) + "\n               ORDER BY time DESC\n               LIMIT "@ + signed_decimal(limit as int)
}

/// Builds the query for the alarms of the last seven days, newest first, at
/// most `limit` of them, optionally only those with the given
/// acknowledgement flag.
pub fn alarms_query(limit: i64, acknowledged: Option<i32>) -> (r: String)
    ensures
        r@ == alarms_query_text(limit, acknowledged),
{
    let mut q = String::from_str("SELECT time, alarm_id, turbine_id, blade_id, alarm_level, alarm_type, \n                      message, threshold, actual_value, acknowledged, mes_pushed\n               FROM \"daily_agg\".\"alarms\"\n               WHERE time > now() - 7d ");
    match acknowledged {
        Some(v) => {
            q.append("AND acknowledged = ");
            let t = signed_decimal_string(v as i64);
            q.append(t.as_str());
        },
        None => {},
    }
    q.append("\n               ORDER BY time DESC\n               LIMIT ");
    let l = signed_decimal_string(limit);
    q.append(l.as_str());
    q
}

/// Text of the query for one alarm by its id.
pub open spec fn alarm_lookup_query_text(alarm_id: Seq<char>) -> Seq<char> {
    "SELECT * FROM \"daily_agg\".\"alarms\" WHERE alarm_id = '"@ + alarm_id + "' LIMIT 1"@
}

/// Builds the query for one alarm by its id.
pub fn alarm_lookup_query(alarm_id: &str) -> (r: String)
    ensures
        r@ == alarm_lookup_query_text(alarm_id@),
{
    let mut q = String::from_str("SELECT * FROM \"daily_agg\".\"alarms\" WHERE alarm_id = '");
    q.append(alarm_id);
    q.append("' LIMIT 1");
    q
}

/// Text of the statement that rewrites one alarm as acknowledged.
pub open spec fn acknowledge_query_text(alarm_id: Seq<char>) -> Seq<char> {
    "INSERT INTO \"daily_agg\".\"alarms\" \n               (time, turbine_id, blade_id, alarm_level, alarm_type, \n                message, threshold, actual_value, acknowledged, mes_pushed, alarm_id)\n               SELECT time, turbine_id, blade_id, alarm_level, alarm_type,\n                      message, threshold, actual_value, 1, mes_pushed, alarm_id\n               FROM \"daily_agg\".\"alarms\" WHERE alarm_id = '"@ + alarm_id + "'"@
}

/// Builds the statement that rewrites one alarm as acknowledged.
pub fn acknowledge_query(alarm_id: &str) -> (r: String)
    ensures
        r@ == acknowledge_query_text(alarm_id@),
{
    let mut q = String::from_str("INSERT INTO \"daily_agg\".\"alarms\" \n               (time, turbine_id, blade_id, alarm_level, alarm_type, \n                message, threshold, actual_value, acknowledged, mes_pushed, alarm_id)\n               SELECT time, turbine_id, blade_id, alarm_level, alarm_type,\n                      message, threshold, actual_value, 1, mes_pushed, alarm_id\n               FROM \"daily_agg\".\"alarms\" WHERE alarm_id = '");
    q.append(alarm_id);
    q.append("'");
    q
}

/// Text of the statement that rewrites the MES flag of one alarm.
pub open spec fn mes_status_query_text(alarm_id: Seq<char>, mes_pushed: i32) -> Seq<char> {
    "INSERT INTO \"daily_agg\".\"alarms\" \n               (time, turbine_id, blade_id, alarm_level, alarm_type, \n                message, threshold, actual_value, acknowledged, mes_pushed, alarm_id)\n               SELECT time, turbine_id, blade_id, alarm_level, alarm_type,\n                      message, threshold, actual_value, acknowledged, "@ + signed_decimal(mes_pushed as int) + ", alarm_id\n               FROM \"daily_agg\".\"alarms\" WHERE alarm_id = '"@ + alarm_id + "'"@
}

/// Builds the statement that rewrites the MES flag of one alarm.
pub fn mes_status_query(alarm_id: &str, mes_pushed: i32) -> (r: String)
    ensures
        r@ == mes_status_query_text(alarm_id@, mes_pushed),
{
    let mut q = String::from_str("INSERT INTO \"daily_agg\".\"alarms\" \n               (time, turbine_id, blade_id, alarm_level, alarm_type, \n                message, threshold, actual_value, acknowledged, mes_pushed, alarm_id)\n               SELECT time, turbine_id, blade_id, alarm_level, alarm_type,\n                      message, threshold, actual_value, acknowledged, ");
    let f = signed_decimal_string(mes_pushed as i64);
    q.append(f.as_str());
    q.append(", alarm_id\n               FROM \"daily_agg\".\"alarms\" WHERE alarm_id = '");
    q.append(alarm_id);
    q.append("'");
    q
}

/// The columns of an alarm row, in the order the store keeps them.
pub open spec fn alarm_columns() -> Seq<Seq<char>> {
    seq![
        "time"@,
        "turbine_id"@,
        "blade_id"@,
        "alarm_level"@,
        "alarm_type"@,
        "message"@,
        "threshold"@,
        "actual_value"@,
        "acknowledged"@,
        "mes_pushed"@,
        "alarm_id"@,
    ]
}

/// Eleven column entries joined by `, `, with the line break `brk` written
/// after the comma that follows the fifth.
pub open spec fn column_list(c: Seq<Seq<char>>, brk: Seq<char>) -> Seq<char> {
    c[0] + ", "@ + c[1] + ", "@ + c[2] + ", "@ + c[3] + ", "@ + c[4] + ","@ + brk + c[5] + ", "@
        + c[6] + ", "@ + c[7] + ", "@ + c[8] + ", "@ + c[9] + ", "@ + c[10]
}

/// A statement that rewrites the alarm `alarm_id` into the alarm table:
/// the INSERT names every column of `alarm_columns()`, and the SELECT list
/// gives the value of each of them, entry by entry.
pub open spec fn rewrite_statement(values: Seq<Seq<char>>, alarm_id: Seq<char>) -> Seq<char> {
    "INSERT INTO \"daily_agg\".\"alarms\" \n               ("@ + column_list(
        alarm_columns(),
        " \n                "@,
    ) + ")\n               SELECT "@ + column_list(values, "\n                      "@)
        + "\n               FROM \"daily_agg\".\"alarms\" WHERE alarm_id = '"@ + alarm_id + "'"@
}

} // verus!
