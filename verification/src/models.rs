//! Plain data types shared by the services and the HTTP layer.

use vstd::prelude::*;

verus! {

/// Alarm level: level 1 is raised on delamination growth, level 2 on a
/// natural-frequency shift.
#[derive(PartialEq, Eq, Structural, Clone, Copy, Debug)]
pub enum AlarmLevel {
    Level1,
    Level2,
}

impl AlarmLevel {
    /// The text under which the level is stored and shown.
    pub open spec fn label_view(self) -> Seq<char> {
        match self {
            AlarmLevel::Level1 => "一级"@,
            AlarmLevel::Level2 => "二级"@,
        }
    }

    pub fn label(&self) -> (r: String)
        ensures
            r@ == self.label_view(),
    {
        match self {
            AlarmLevel::Level1 => String::from_str("一级"),
            AlarmLevel::Level2 => String::from_str("二级"),
        }
    }
}

/// What an alarm is about.
#[derive(PartialEq, Eq, Structural, Clone, Copy, Debug)]
pub enum AlarmType {
    DelaminationRate,
    FrequencyOffset,
}

impl AlarmType {
    pub open spec fn label_view(self) -> Seq<char> {
        match self {
            AlarmType::DelaminationRate => "delamination_rate"@,
            AlarmType::FrequencyOffset => "frequency_offset"@,
        }
    }

    pub fn label(&self) -> (r: String)
        ensures
            r@ == self.label_view(),
    {
        match self {
            AlarmType::DelaminationRate => String::from_str("delamination_rate"),
            AlarmType::FrequencyOffset => String::from_str("frequency_offset"),
        }
    }

    /// Level that an alarm of this type is raised at.
    pub open spec fn level_view(self) -> AlarmLevel {
        match self {
            AlarmType::DelaminationRate => AlarmLevel::Level1,
            AlarmType::FrequencyOffset => AlarmLevel::Level2,
        }
    }

    pub fn level(&self) -> (r: AlarmLevel)
        ensures
            r == self.level_view(),
            *self == AlarmType::DelaminationRate ==> r == AlarmLevel::Level1,
            *self == AlarmType::FrequencyOffset ==> r == AlarmLevel::Level2,
    {
        match self {
            AlarmType::DelaminationRate => AlarmLevel::Level1,
            AlarmType::FrequencyOffset => AlarmLevel::Level2,
        }
    }
}

/// Damage class of a composite blade.
#[derive(PartialEq, Eq, Structural, Clone, Copy, Debug)]
pub enum DamageType {
    NoDamage,
    MatrixCracking,
    FiberBreakage,
    Delamination,
    Combined,
}

impl DamageType {
    pub open spec fn label_view(self) -> Seq<char> {
        match self {
            DamageType::NoDamage => "none"@,
            DamageType::MatrixCracking => "matrix"@,
            DamageType::FiberBreakage => "fiber"@,
            DamageType::Delamination => "delamination"@,
            DamageType::Combined => "combined"@,
        }
    }

    pub fn label(&self) -> (r: String)
        ensures
            r@ == self.label_view(),
    {
        match self {
            DamageType::NoDamage => String::from_str("none"),
            DamageType::MatrixCracking => String::from_str("matrix"),
            DamageType::FiberBreakage => String::from_str("fiber"),
            DamageType::Delamination => String::from_str("delamination"),
            DamageType::Combined => String::from_str("combined"),
        }
    }
}

/// Envelope of every HTTP answer.
pub struct ApiResponse<T> {
    pub success: bool,
    pub message: String,
    pub data: Option<T>,
}

impl<T> ApiResponse<T> {
    /// A successful answer carrying `data`.
    pub fn success(data: T) -> (r: Self)
        ensures
            r.success,
            r.message@ == "操作成功"@,
            r.data == Some(data),
    {
        ApiResponse { success: true, message: String::from_str("操作成功"), data: Some(data) }
    }

    /// A failed answer carrying `message` and no data.
    pub fn error(message: &str) -> (r: Self)
        ensures
            !r.success,
            r.message@ == message@,
            r.data is None,
    {
        ApiResponse { success: false, message: message.to_string(), data: None }
    }
}

/// One line of the turbine health ranking.
pub struct HealthRanking {
    pub turbine_id: String,
    pub health_score: i32,
    pub rank: i32,
}

/// Answer of the service health probe.
pub struct HealthStatus {
    pub status: &'static str,
    pub version: &'static str,
}

impl HealthStatus {
    /// The probe answer of a running service of the given version.
    pub fn running(version: &'static str) -> (r: HealthStatus)
        ensures
            r.status@ == "ok"@,
            r.version == version,
    {
        HealthStatus { status: "ok", version }
    }
}

/// Selects one blade.
pub struct BladeQuery {
    pub turbine_id: String,
    pub blade_id: String,
}

/// Selects a time window of one blade section.
pub struct HistoryQuery {
    pub turbine_id: String,
    pub blade_id: String,
    pub section: Option<String>,
    pub hours: Option<i64>,
}

impl HistoryQuery {
    /// Length of the window in hours; 24 unless given.
    pub fn effective_hours(&self) -> (r: i64)
        ensures
            r == match self.hours {
                Some(h) => h,
                None => 24,
            },
    {
        match self.hours {
            Some(h) => h,
            None => 24,
        }
    }

    /// Blade section; "mid" unless given.
    pub fn effective_section(&self) -> (r: &str)
        ensures
            r@ == match self.section {
                Some(s) => s@,
                None => "mid"@,
            },
    {
        match &self.section {
            Some(s) => s.as_str(),
            None => "mid",
        }
    }
}

/// Answer of the maintenance execution system (MES).
pub struct MesResponse {
    pub success: bool,
    pub message: String,
    pub mes_reference_id: Option<String>,
}

/// Health summary of one blade, with the time of the last check in
/// nanoseconds since the Unix epoch.
pub struct BladeHealth {
    pub turbine_id: String,
    pub blade_id: String,
    pub health_score: i32,
    pub damage_type: String,
    pub severity_level: u8,
    pub last_check: i64,
    pub root_health: Option<i32>,
    pub mid_health: Option<i32>,
    pub tip_health: Option<i32>,
}

impl Clone for BladeHealth {
    fn clone(&self) -> (r: Self)
        ensures
            r == *self,
    {
        BladeHealth {
            turbine_id: self.turbine_id.clone(),
            blade_id: self.blade_id.clone(),
            health_score: self.health_score,
            damage_type: self.damage_type.clone(),
            severity_level: self.severity_level,
            last_check: self.last_check,
            root_health: self.root_health,
            mid_health: self.mid_health,
            tip_health: self.tip_health,
        }
    }
}

} // verus!
