use onvif_ptz::binding::{
    bind_services, check_entry, plan_binding, BindError, ServiceDescriptor, DEVICE_NAMESPACE, MEDIA_NAMESPACE,
    PTZ_NAMESPACE,
};

const BASE: &str = "http://192.168.1.15:888";

fn entry(namespace: &str, address: &str) -> ServiceDescriptor {
    ServiceDescriptor { namespace: namespace.to_string(), address: address.to_string() }
}

fn plan() -> onvif_ptz::binding::BindPlan {
    plan_binding(Some(BASE.to_string()), Some("test".to_string()), Some("test123".to_string()))
        .unwrap()
}

#[test]
fn plan_normalizes_base_and_joins_device_service() {
    let p = plan();
    assert_eq!(p.base, "http://192.168.1.15:888/");
    assert_eq!(p.device_service, "http://192.168.1.15:888/onvif/device_service");
    let c = p.credentials.unwrap();
    assert_eq!(c.username, "test");
    assert_eq!(c.password, "test123");
}

#[test]
fn plan_without_credentials() {
    let p = plan_binding(Some(BASE.to_string()), None, None).unwrap();
    assert!(p.credentials.is_none());
}

#[test]
fn username_without_password_is_config_error() {
    let r = plan_binding(Some(BASE.to_string()), Some("test".to_string()), None);
    assert_eq!(r.unwrap_err(), BindError::ConfigError);
}

#[test]
fn password_without_username_is_config_error() {
    let r = plan_binding(Some(BASE.to_string()), None, Some("test123".to_string()));
    assert_eq!(r.unwrap_err(), BindError::ConfigError);
}

#[test]
fn half_credentials_are_rejected_before_the_address_is_read() {
    let r = plan_binding(Some("not an address".to_string()), Some("test".to_string()), None);
    assert_eq!(r.unwrap_err(), BindError::ConfigError);
}

#[test]
fn missing_base_is_config_error() {
    let r = plan_binding(None, None, None);
    assert_eq!(r.unwrap_err(), BindError::ConfigError);
}

#[test]
fn unparsable_base_is_address_error() {
    let r = plan_binding(Some("not an address".to_string()), None, None);
    assert_eq!(r.unwrap_err(), BindError::AddressError);
}

#[test]
fn single_ptz_entry_is_bound() {
    let p = plan();
    let services = vec![entry(PTZ_NAMESPACE, "http://192.168.1.15:888/onvif/ptz_service")];
    let e = bind_services(&p.base, &p.device_service, &services).unwrap();
    assert_eq!(e.ptz, Some("http://192.168.1.15:888/onvif/ptz_service".to_string()));
    assert_eq!(e.media, None);
}

#[test]
fn full_discovery_binds_media_and_ptz() {
    let p = plan();
    let services = vec![
        entry(DEVICE_NAMESPACE, "http://192.168.1.15:888/onvif/device_service"),
        entry(MEDIA_NAMESPACE, "http://192.168.1.15:888/onvif/media_service"),
        entry("http://www.onvif.org/ver10/events/wsdl", "http://192.168.1.15:888/onvif/events"),
        entry(PTZ_NAMESPACE, "http://192.168.1.15:888/onvif/ptz_service"),
    ];
    let e = bind_services(&p.base, &p.device_service, &services).unwrap();
    assert_eq!(e.media, Some("http://192.168.1.15:888/onvif/media_service".to_string()));
    assert_eq!(e.ptz, Some("http://192.168.1.15:888/onvif/ptz_service".to_string()));
}

#[test]
fn empty_discovery_binds_nothing() {
    let p = plan();
    let e = bind_services(&p.base, &p.device_service, &vec![]).unwrap();
    assert_eq!(e.media, None);
    assert_eq!(e.ptz, None);
}

#[test]
fn first_of_duplicate_entries_is_kept() {
    let p = plan();
    let services = vec![
        entry(PTZ_NAMESPACE, "http://192.168.1.15:888/onvif/ptz_a"),
        entry(PTZ_NAMESPACE, "http://192.168.1.15:888/onvif/ptz_b"),
    ];
    let e = bind_services(&p.base, &p.device_service, &services).unwrap();
    assert_eq!(e.ptz, Some("http://192.168.1.15:888/onvif/ptz_a".to_string()));
}

#[test]
fn advertised_address_is_normalized() {
    let p = plan();
    let services = vec![entry(MEDIA_NAMESPACE, "HTTP://192.168.1.15:888/onvif/media")];
    let e = bind_services(&p.base, &p.device_service, &services).unwrap();
    assert_eq!(e.media, Some("http://192.168.1.15:888/onvif/media".to_string()));
}

#[test]
fn address_outside_base_is_trust_boundary_error() {
    let p = plan();
    let services = vec![
        entry(MEDIA_NAMESPACE, "http://192.168.1.15:888/onvif/media_service"),
        entry(PTZ_NAMESPACE, "http://10.0.0.1:888/onvif/ptz_service"),
    ];
    let r = bind_services(&p.base, &p.device_service, &services);
    assert_eq!(r.unwrap_err(), BindError::TrustBoundaryError);
}

#[test]
fn unknown_namespace_outside_base_is_still_rejected() {
    let p = plan();
    let services = vec![entry("urn:other", "http://evil.example/svc")];
    let r = bind_services(&p.base, &p.device_service, &services);
    assert_eq!(r.unwrap_err(), BindError::TrustBoundaryError);
}

#[test]
fn unparsable_advertised_address_is_address_error() {
    let p = plan();
    let services = vec![entry(PTZ_NAMESPACE, "::nonsense")];
    let r = bind_services(&p.base, &p.device_service, &services);
    assert_eq!(r.unwrap_err(), BindError::AddressError);
}

#[test]
fn management_address_mismatch_is_consistency_error() {
    let p = plan();
    let services = vec![entry(DEVICE_NAMESPACE, "http://192.168.1.15:888/onvif/other_service")];
    let r = bind_services(&p.base, &p.device_service, &services);
    assert_eq!(r.unwrap_err(), BindError::ConsistencyError);
}

#[test]
fn first_failing_entry_decides_the_error() {
    let p = plan();
    let services = vec![
        entry(DEVICE_NAMESPACE, "http://192.168.1.15:888/onvif/other_service"),
        entry(PTZ_NAMESPACE, "http://10.0.0.1:888/onvif/ptz_service"),
    ];
    let r = bind_services(&p.base, &p.device_service, &services);
    assert_eq!(r.unwrap_err(), BindError::ConsistencyError);
}

#[test]
fn entry_checks_on_parsed_addresses() {
    let dm = "http://192.168.1.15:888/onvif/device_service";
    let base = "http://192.168.1.15:888/";
    let ptz = entry(PTZ_NAMESPACE, "http://192.168.1.15:888/onvif/ptz_service");
    let inside = Some("http://192.168.1.15:888/onvif/ptz_service".to_string());
    assert_eq!(check_entry(base, dm, &ptz, &inside), Ok(()));
    assert_eq!(check_entry(base, dm, &ptz, &None), Err(BindError::AddressError));
    let outside = Some("http://192.168.1.16:888/onvif/ptz_service".to_string());
    assert_eq!(check_entry(base, dm, &ptz, &outside), Err(BindError::TrustBoundaryError));
    let device = entry(DEVICE_NAMESPACE, "http://192.168.1.15:888/onvif/dev");
    let parsed = Some("http://192.168.1.15:888/onvif/dev".to_string());
    assert_eq!(check_entry(base, dm, &device, &parsed), Err(BindError::ConsistencyError));
    let device = entry(DEVICE_NAMESPACE, dm);
    let parsed = Some(dm.to_string());
    assert_eq!(check_entry(base, dm, &device, &parsed), Ok(()));
}
