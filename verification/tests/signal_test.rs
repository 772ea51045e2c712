use wind_turbine_blade_monitor::errors::{SignalProcessingError, StrainInterpolatorError};
use wind_turbine_blade_monitor::signal::{
    check_coefficients_present, check_known_points, check_order_spectrum_length,
    check_signal_present, check_transform_length, check_variogram_samples, check_wavelet_length,
    severity_damage_score, severity_health_score, severity_level, VariogramModel,
};

#[test]
fn severity_bands() {
    assert_eq!(severity_level(0), 0);
    assert_eq!(severity_level(20), 0);
    assert_eq!(severity_level(21), 1);
    assert_eq!(severity_level(40), 1);
    assert_eq!(severity_level(41), 2);
    assert_eq!(severity_level(60), 2);
    assert_eq!(severity_level(61), 3);
    assert_eq!(severity_level(80), 3);
    assert_eq!(severity_level(81), 4);
    assert_eq!(severity_level(255), 4);
}

#[test]
fn severity_scores() {
    assert_eq!(severity_damage_score(3), 75);
    assert_eq!(severity_health_score(3), 25);
    assert_eq!(severity_health_score(0), 100);
    assert_eq!(severity_health_score(4), 0);
}

#[test]
fn variogram_models_by_name() {
    assert!(matches!(VariogramModel::from_config_name("Spherical"), Ok(VariogramModel::Spherical)));
    assert!(matches!(VariogramModel::from_config_name("Exponential"), Ok(VariogramModel::Exponential)));
    assert!(matches!(VariogramModel::from_config_name("Gaussian"), Ok(VariogramModel::Gaussian)));
    assert!(matches!(VariogramModel::from_config_name("Linear"), Ok(VariogramModel::Linear)));
    match VariogramModel::from_config_name("Cubic") {
        Err(StrainInterpolatorError::ConfigError(m)) => assert_eq!(m, "不支持的变异函数模型: Cubic"),
        _ => panic!("expected a configuration error"),
    }
}

#[test]
fn wavelet_needs_two_to_the_level_samples() {
    assert!(check_wavelet_length(32, 2).is_ok());
    assert!(check_wavelet_length(4, 2).is_ok());
    match check_wavelet_length(3, 2) {
        Err(SignalProcessingError::InsufficientLength(m)) => {
            assert_eq!(m, "信号长度 3 小于小波分解所需的最小长度 4")
        }
        _ => panic!("expected a length error"),
    }
    assert!(check_wavelet_length(0, 0).is_err());
}

#[test]
fn size_checks() {
    assert!(check_transform_length(4).is_ok());
    assert!(matches!(check_transform_length(3), Err(SignalProcessingError::InsufficientLength(m)) if m == "信号长度必须至少为4"));
    assert!(check_coefficients_present(1).is_ok());
    assert!(matches!(check_coefficients_present(0), Err(SignalProcessingError::InsufficientLength(m)) if m == "小波系数为空"));
    assert!(check_signal_present(1).is_ok());
    assert!(matches!(check_signal_present(0), Err(SignalProcessingError::OrderTrackingError(m)) if m == "信号为空"));
    assert!(check_order_spectrum_length(3).is_ok());
    assert!(matches!(check_order_spectrum_length(2), Err(SignalProcessingError::OrderTrackingError(m)) if m == "阶次谱长度不足"));
    assert!(check_known_points(1).is_ok());
    assert!(matches!(check_known_points(0), Err(SignalProcessingError::NormalizationError(m)) if m == "已知点不能为空"));
}

#[test]
fn variogram_fit_needs_ten_pairs() {
    assert!(check_variogram_samples(4).is_err());
    assert!(check_variogram_samples(5).is_ok());
    assert!(check_variogram_samples(0).is_err());
    assert!(matches!(check_variogram_samples(1), Err(SignalProcessingError::NormalizationError(m)) if m == "样本点太少，无法拟合变异函数"));
}
