//! Signal-processing settings and the checks that signal-processing runs
//! make on the sizes of their inputs.

use vstd::prelude::*;
use crate::errors::{SignalProcessingError, StrainInterpolatorError};
use crate::ids::{decimal, decimal_string};

verus! {

/// Threshold rule for wavelet shrinkage.
#[derive(PartialEq, Eq, Structural, Clone, Copy, Debug)]
pub enum ThresholdMethod {
    Universal,
    SURE,
    Minimax,
}

/// Kind of acoustic-emission quantity being normalized.
#[derive(PartialEq, Eq, Structural, Clone, Copy, Debug)]
pub enum SignalType {
    Amplitude,
    Energy,
    Frequency,
    Duration,
}

/// Variogram model of the kriging interpolation.
#[derive(PartialEq, Eq, Structural, Clone, Copy, Debug)]
pub enum VariogramModel {
    Spherical,
    Exponential,
    Gaussian,
    Linear,
}

/// The model that a configuration name selects, if any.
pub open spec fn variogram_named(name: Seq<char>) -> Option<VariogramModel> {
    if name == "Spherical"@ {
        Some(VariogramModel::Spherical)
    } else if name == "Exponential"@ {
        Some(VariogramModel::Exponential)
    } else if name == "Gaussian"@ {
        Some(VariogramModel::Gaussian)
    } else if name == "Linear"@ {
        Some(VariogramModel::Linear)
    } else {
        None
    }
}

impl VariogramModel {
    /// The model named `name` in a configuration; any other name is a
    /// configuration error naming it.
    pub fn from_config_name(name: &str) -> (r: Result<VariogramModel, StrainInterpolatorError>)
        ensures
            match variogram_named(name@) {
                Some(m) => r == Ok::<VariogramModel, StrainInterpolatorError>(m),
                None => r matches Err(StrainInterpolatorError::ConfigError(msg)) && msg@
                    == "不支持的变异函数模型: "@ + name@,
            },
    {
        let n = String::from_str(name);
        if n == String::from_str("Spherical") {
            Ok(VariogramModel::Spherical)
        } else if n == String::from_str("Exponential") {
            Ok(VariogramModel::Exponential)
        } else if n == String::from_str("Gaussian") {
            Ok(VariogramModel::Gaussian)
        } else if n == String::from_str("Linear") {
            Ok(VariogramModel::Linear)
        } else {
            let mut msg = String::from_str("不支持的变异函数模型: ");
            msg.append(name);
            Err(StrainInterpolatorError::ConfigError(msg))
        }
    }
}

/// Severity level of a severity score: 0..=20 is level 0, 21..=40 level 1,
/// 41..=60 level 2, 61..=80 level 3, above 80 level 4.
pub open spec fn severity_level_of(score: u8) -> u8 {
    if score <= 20 {
        0
    } else if score <= 40 {
        1
    } else if score <= 60 {
        2
    } else if score <= 80 {
        3
    } else {
        4
    }
}

/// Severity level of a severity score.
pub fn severity_level(score: u8) -> (r: u8)
    ensures
        r == severity_level_of(score),
        r <= 4,
{
    if score <= 20 {
        0
    } else if score <= 40 {
        1
    } else if score <= 60 {
        2
    } else if score <= 80 {
        3
    } else {
        4
    }
}

/// Damage severity score of a severity level: 25 points per level.
pub fn severity_damage_score(level: u8) -> (r: i32)
    ensures
        r == level as int * 25,
{
    level as i32 * 25
}

/// Health score of a severity level: 100 less 25 points per level.
pub fn severity_health_score(level: u8) -> (r: i32)
    ensures
        r == 100 - level as int * 25,
{
    100 - level as i32 * 25
}

/// `2` to the power `e`.
pub open spec fn two_pow(e: nat) -> nat
    decreases e,
{
    if e == 0 {
        1
    } else {
        2 * two_pow((e - 1) as nat)
    }
}

proof fn lemma_two_pow_mono(a: nat, b: nat)
    requires
        a <= b,
    ensures
        two_pow(a) <= two_pow(b),
    decreases b,
{
    if a < b {
        lemma_two_pow_mono(a, (b - 1) as nat);
    }
}

proof fn lemma_two_pow_63()
    ensures
        two_pow(63) == 0x8000_0000_0000_0000,
{
    reveal_with_fuel(two_pow, 64);
}

/// Detail text of a signal too short for a wavelet decomposition.
pub open spec fn short_signal_text(len: nat, needed: nat) -> Seq<char> {
    "信号长度 "@ + decimal(len) + " 小于小波分解所需的最小长度 "@ + decimal(needed)
}

/// Refuses a wavelet decomposition of `level` levels of a signal of `len`
/// samples when the signal is shorter than `2^level`.
pub fn check_wavelet_length(len: usize, level: usize) -> (r: Result<(), SignalProcessingError>)
    requires
        level < 64,
        level < usize::BITS,
    ensures
        r is Ok <==> len >= two_pow(level as nat),
        r matches Err(e) ==> e matches SignalProcessingError::InsufficientLength(m) && m@
            == short_signal_text(len as nat, two_pow(level as nat)),
{
    let mut needed: u64 = 1;
    let mut i: usize = 0;
    while i < level
        invariant
            i <= level < 64,
            needed == two_pow(i as nat),
        decreases level - i,
    {
        proof {
            lemma_two_pow_mono((i + 1) as nat, 63);
            lemma_two_pow_63();
        }
        needed = needed * 2;
        i = i + 1;
    }
    if (len as u64) < needed {
        let mut m = String::from_str("信号长度 ");
        let a = decimal_string(len as u64);
        m.append(a.as_str());
        m.append(" 小于小波分解所需的最小长度 ");
        let b = decimal_string(needed);
        m.append(b.as_str());
        Err(SignalProcessingError::InsufficientLength(m))
    } else {
        Ok(())
    }
}

/// Refuses a wavelet transform step on fewer than four samples.
pub fn check_transform_length(len: usize) -> (r: Result<(), SignalProcessingError>)
    ensures
        r is Ok <==> len >= 4,
        r matches Err(e) ==> e matches SignalProcessingError::InsufficientLength(m) && m@
            == "信号长度必须至少为4"@,
{
    if len < 4 {
        Err(SignalProcessingError::InsufficientLength(String::from_str("信号长度必须至少为4")))
    } else {
        Ok(())
    }
}

/// Refuses a wavelet reconstruction without coefficients.
pub fn check_coefficients_present(count: usize) -> (r: Result<(), SignalProcessingError>)
    ensures
        r is Ok <==> count > 0,
        r matches Err(e) ==> e matches SignalProcessingError::InsufficientLength(m) && m@
            == "小波系数为空"@,
{
    if count == 0 {
        Err(SignalProcessingError::InsufficientLength(String::from_str("小波系数为空")))
    } else {
        Ok(())
    }
}

/// Refuses order tracking of an empty signal.
pub fn check_signal_present(len: usize) -> (r: Result<(), SignalProcessingError>)
    ensures
        r is Ok <==> len > 0,
        r matches Err(e) ==> e matches SignalProcessingError::OrderTrackingError(m) && m@
            == "信号为空"@,
{
    if len == 0 {
        Err(SignalProcessingError::OrderTrackingError(String::from_str("信号为空")))
    } else {
        Ok(())
    }
}

/// Refuses peak search in an order spectrum of fewer than three bins.
pub fn check_order_spectrum_length(len: usize) -> (r: Result<(), SignalProcessingError>)
    ensures
        r is Ok <==> len >= 3,
        r matches Err(e) ==> e matches SignalProcessingError::OrderTrackingError(m) && m@
            == "阶次谱长度不足"@,
{
    if len < 3 {
        Err(SignalProcessingError::OrderTrackingError(String::from_str("阶次谱长度不足")))
    } else {
        Ok(())
    }
}

/// Refuses kriging without known points.
pub fn check_known_points(count: usize) -> (r: Result<(), SignalProcessingError>)
    ensures
        r is Ok <==> count > 0,
        r matches Err(e) ==> e matches SignalProcessingError::NormalizationError(m) && m@
            == "已知点不能为空"@,
{
    if count == 0 {
        Err(SignalProcessingError::NormalizationError(String::from_str("已知点不能为空")))
    } else {
        Ok(())
    }
}

/// Number of distinct pairs of `n` points.
pub open spec fn pair_count(n: nat) -> nat {
    n * (n - 1) as nat / 2
}

/// Refuses to fit a variogram from fewer than ten point pairs.
pub fn check_variogram_samples(count: usize) -> (r: Result<(), SignalProcessingError>)
    ensures
        r is Ok <==> pair_count(count as nat) >= 10,
        r matches Err(e) ==> e matches SignalProcessingError::NormalizationError(m) && m@
            == "样本点太少，无法拟合变异函数"@,
{
    let n = count as u128;
    let pairs = if n == 0 {
        0
    } else {
        proof {
            assert(n * (n - 1) < 0x1_0000_0000_0000_0000 * 0x1_0000_0000_0000_0000) by (nonlinear_arith)
                requires
                    1 <= n < 0x1_0000_0000_0000_0000,
            ;
        }
        n * (n - 1) / 2
    };
    if pairs < 10 {
        Err(
            SignalProcessingError::NormalizationError(
                String::from_str("样本点太少，无法拟合变异函数"),
            ),
        )
    } else {
        Ok(())
    }
}

} // verus!
