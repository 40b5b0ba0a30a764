//! Turning a base address, optional credentials and a discovery response into
//! the set of service endpoints a session talks to.

use vstd::prelude::*;

use crate::address::{
    is_prefix_of, join_address, joined_url, parse_address, parsed_url, same_text,
    starts_with_text, text_of,
};

verus! {

/// Namespace of the device management service.
pub const DEVICE_NAMESPACE: &'static str = "http://www.onvif.org/ver10/device/wsdl";

/// Namespace of the media service.
pub const MEDIA_NAMESPACE: &'static str = "http://www.onvif.org/ver10/media/wsdl";

/// Namespace of the pan-tilt-zoom service.
pub const PTZ_NAMESPACE: &'static str = "http://www.onvif.org/ver20/ptz/wsdl";

/// Path of the device management service, relative to the base address.
pub const DEVICE_SERVICE_PATH: &'static str = "onvif/device_service";

/// Why an operation of a session failed.
#[derive(Debug, Clone, Copy, PartialEq, Eq, Structural)]
pub enum BindError {
    /// Malformed caller input: a missing base address, or only one of
    /// username and password.
    ConfigError,
    /// An address, given or advertised, does not parse.
    AddressError,
    /// An advertised address lies outside the base address.
    TrustBoundaryError,
    /// The device advertises a management address other than the one used.
    ConsistencyError,
    /// A remote call failed.
    TransportError,
    /// The device has no media profile.
    NoProfileError,
}

/// A username and password, always given together.
#[derive(Debug, Clone)]
pub struct Credentials {
    pub username: String,
    pub password: String,
}

/// One entry of a discovery response.
#[derive(Debug, Clone)]
pub struct ServiceDescriptor {
    pub namespace: String,
    pub address: String,
}

/// What binding needs before it can ask the device for its services.
#[derive(Debug, Clone)]
pub struct BindPlan {
    /// Normalized text of the base address.
    pub base: String,
    /// Address of the device management service.
    pub device_service: String,
    pub credentials: Option<Credentials>,
}

/// The optional services a device advertised, by normalized address.
#[derive(Debug, Clone)]
pub struct ServiceEndpoints {
    pub media: Option<String>,
    pub ptz: Option<String>,
}

/// Whether username and password are given together or not at all.
pub open spec fn credentials_paired(username: Option<String>, password: Option<String>) -> bool {
    username is Some == password is Some
}

/// Validates credentials and computes the device management address from
/// the base address. Nothing is sent anywhere.
pub fn plan_binding(
    base: Option<String>,
    username: Option<String>,
    password: Option<String>,
) -> (r: Result<BindPlan, BindError>)
    ensures
        !credentials_paired(username, password) ==> r == Err::<BindPlan, BindError>(
            BindError::ConfigError,
        ),
        credentials_paired(username, password) && base is None ==> r == Err::<
            BindPlan,
            BindError,
        >(BindError::ConfigError),
        credentials_paired(username, password) && base is Some && parsed_url(base->Some_0@) is None
            ==> r == Err::<BindPlan, BindError>(BindError::AddressError),
        credentials_paired(username, password) && base is Some && parsed_url(base->Some_0@) is Some
            && joined_url(parsed_url(base->Some_0@)->Some_0, DEVICE_SERVICE_PATH@) is None ==> r
            == Err::<BindPlan, BindError>(BindError::AddressError),
        r is Ok ==> {
            let p = r->Ok_0;
            &&& credentials_paired(username, password)
            &&& base is Some
            &&& parsed_url(base->Some_0@) == Some(p.base@)
            &&& joined_url(p.base@, DEVICE_SERVICE_PATH@) == Some(p.device_service@)
            &&& p.credentials is Some == username is Some
            &&& p.credentials is Some ==> p.credentials->Some_0.username == username->Some_0
                && p.credentials->Some_0.password == password->Some_0
        },
        credentials_paired(username, password) && base is Some && parsed_url(base->Some_0@) is Some
            && joined_url(parsed_url(base->Some_0@)->Some_0, DEVICE_SERVICE_PATH@) is Some
            ==> r is Ok,
{
    let credentials = match (username, password) {
        (Some(username), Some(password)) => Some(Credentials { username, password }),
        (None, None) => None,
        _ => {
            return Err(BindError::ConfigError);
        },
    };
    let given = match base {
        Some(b) => b,
        None => {
            return Err(BindError::ConfigError);
        },
    };
    let base = match parse_address(given.as_str()) {
        Some(b) => b,
        None => {
            return Err(BindError::AddressError);
        },
    };
    let device_service = match join_address(base.as_str(), DEVICE_SERVICE_PATH) {
        Some(d) => d,
        None => {
            return Err(BindError::AddressError);
        },
    };
    Ok(BindPlan { base, device_service, credentials })
}

/// The error, if any, that a discovery entry raises, given the normalized
/// text of its address when that parses.
pub open spec fn entry_verdict(
    base: Seq<char>,
    device_service: Seq<char>,
    s: ServiceDescriptor,
    parsed: Option<Seq<char>>,
) -> Option<BindError> {
    match parsed {
        None => Some(BindError::AddressError),
        Some(a) => if !is_prefix_of(base, a) {
            Some(BindError::TrustBoundaryError)
        } else if s.namespace@ == DEVICE_NAMESPACE@ && s.address@ != device_service {
            Some(BindError::ConsistencyError)
        } else {
            None
        },
    }
}

/// The error, if any, that one discovery entry raises.
pub open spec fn entry_error(base: Seq<char>, device_service: Seq<char>, s: ServiceDescriptor) -> Option<
    BindError,
> {
    entry_verdict(base, device_service, s, parsed_url(s.address@))
}

/// Checks one discovery entry whose address parsed to `parsed` (or did not
/// parse): it must lie inside `base`, and a device management entry must
/// name `device_service` itself.
pub fn check_entry(
    base: &str,
    device_service: &str,
    entry: &ServiceDescriptor,
    parsed: &Option<String>,
) -> (r: Result<(), BindError>)
    ensures
        r is Ok <==> entry_verdict(base@, device_service@, *entry, text_of(*parsed)) is None,
        r is Err ==> entry_verdict(base@, device_service@, *entry, text_of(*parsed)) == Some(
            r->Err_0,
        ),
{
    let address = match parsed {
        Some(a) => a,
        None => {
            return Err(BindError::AddressError);
        },
    };
    if !starts_with_text(address.as_str(), base) {
        return Err(BindError::TrustBoundaryError);
    }
    if same_text(entry.namespace.as_str(), DEVICE_NAMESPACE) && !same_text(
        entry.address.as_str(),
        device_service,
    ) {
        return Err(BindError::ConsistencyError);
    }
    Ok(())
}

/// The error of the first failing entry, if any.
pub open spec fn first_failure(
    base: Seq<char>,
    device_service: Seq<char>,
    services: Seq<ServiceDescriptor>,
) -> Option<BindError>
    decreases services.len(),
{
    if services.len() == 0 {
        None
    } else {
        match first_failure(base, device_service, services.drop_last()) {
            Some(e) => Some(e),
            None => entry_error(base, device_service, services.last()),
        }
    }
}

/// The normalized address of the first entry in `namespace`, if any.
pub open spec fn endpoint_for(services: Seq<ServiceDescriptor>, namespace: Seq<char>) -> Option<
    Seq<char>,
>
    decreases services.len(),
{
    if services.len() == 0 {
        None
    } else {
        match endpoint_for(services.drop_last(), namespace) {
            Some(a) => Some(a),
            None => if services.last().namespace@ == namespace {
                parsed_url(services.last().address@)
            } else {
                None
            },
        }
    }
}

/// Once a prefix of the response has failed, the whole response fails the
/// same way.
proof fn lemma_failure_of_prefix(
    base: Seq<char>,
    device_service: Seq<char>,
    services: Seq<ServiceDescriptor>,
    n: int,
)
    requires
        0 <= n <= services.len(),
        first_failure(base, device_service, services.take(n)) is Some,
    ensures
        first_failure(base, device_service, services) == first_failure(
            base,
            device_service,
            services.take(n),
        ),
    decreases services.len(),
{
    if services.len() == n {
        assert(services.take(n) =~= services);
    } else {
        assert(services.drop_last().take(n) =~= services.take(n));
        lemma_failure_of_prefix(base, device_service, services.drop_last(), n);
    }
}

/// The three known namespaces are distinct.
proof fn lemma_namespaces_distinct()
    ensures
        DEVICE_NAMESPACE@ != MEDIA_NAMESPACE@,
        DEVICE_NAMESPACE@ != PTZ_NAMESPACE@,
        MEDIA_NAMESPACE@ != PTZ_NAMESPACE@,
{
    reveal_strlit("http://www.onvif.org/ver10/device/wsdl");
    reveal_strlit("http://www.onvif.org/ver10/media/wsdl");
    reveal_strlit("http://www.onvif.org/ver20/ptz/wsdl");
    assert(DEVICE_NAMESPACE@.len() == 38);
    assert(MEDIA_NAMESPACE@.len() == 37);
    assert(PTZ_NAMESPACE@.len() == 35);
}

/// What binding a discovery response against `base` gives.
pub open spec fn binding_outcome(
    base: Seq<char>,
    device_service: Seq<char>,
    services: Seq<ServiceDescriptor>,
    r: Result<ServiceEndpoints, BindError>,
) -> bool {
    match first_failure(base, device_service, services) {
        Some(e) => r == Err::<ServiceEndpoints, BindError>(e),
        None => r is Ok && text_of(r->Ok_0.media) == endpoint_for(services, MEDIA_NAMESPACE@)
            && text_of(r->Ok_0.ptz) == endpoint_for(services, PTZ_NAMESPACE@),
    }
}

/// Checks each advertised service against the base address and the device
/// management address, and keeps the first media and pan-tilt-zoom entries.
/// Entries of other namespaces are passed over.
pub fn bind_services(base: &str, device_service: &str, services: &Vec<ServiceDescriptor>) -> (r:
    Result<ServiceEndpoints, BindError>)
    ensures
        binding_outcome(base@, device_service@, services@, r),
{
    let mut media: Option<String> = None;
    let mut ptz: Option<String> = None;
    let mut i: usize = 0;
    while i < services.len()
        invariant
            i <= services@.len(),
            first_failure(base@, device_service@, services@.take(i as int)) is None,
            text_of(media) == endpoint_for(services@.take(i as int), MEDIA_NAMESPACE@),
            text_of(ptz) == endpoint_for(services@.take(i as int), PTZ_NAMESPACE@),
        decreases services@.len() - i,
    {
        let s = &services[i];
        proof {
            lemma_namespaces_distinct();
        }
        assert(services@.take(i + 1).drop_last() =~= services@.take(i as int));
        assert(services@.take(i + 1).last() == services@[i as int]);
        let parsed = parse_address(s.address.as_str());
        match check_entry(base, device_service, s, &parsed) {
            Ok(()) => {},
            Err(e) => {
                proof {
                    lemma_failure_of_prefix(base@, device_service@, services@, i + 1);
                }
                return Err(e);
            },
        }
        let address = parsed.unwrap();
        if same_text(s.namespace.as_str(), MEDIA_NAMESPACE) {
            if media.is_none() {
                media = Some(address);
            }
        } else if same_text(s.namespace.as_str(), PTZ_NAMESPACE) {
            if ptz.is_none() {
                ptz = Some(address);
            }
        }
        i = i + 1;
    }
    assert(services@.take(services@.len() as int) =~= services@);
    Ok(ServiceEndpoints { media, ptz })
}

/// A response with no failing entry has no failing entry at any index.
proof fn lemma_no_failure_at_any_entry(
    base: Seq<char>,
    device_service: Seq<char>,
    services: Seq<ServiceDescriptor>,
)
    requires
        first_failure(base, device_service, services) is None,
    ensures
        forall|i: int|
            0 <= i < services.len() ==> #[trigger] entry_error(base, device_service, services[i])
                is None,
    decreases services.len(),
{
    if services.len() > 0 {
        lemma_no_failure_at_any_entry(base, device_service, services.drop_last());
        assert forall|i: int| 0 <= i < services.len() implies #[trigger] entry_error(
            base,
            device_service,
            services[i],
        ) is None by {
            if i < services.len() - 1 {
                assert(services[i] == services.drop_last()[i]);
            }
        }
    }
}

/// Where every address parses, a namespace has an endpoint exactly when some
/// entry is in it, and the endpoint is the address of the first such entry.
proof fn lemma_endpoint_of_first_entry(services: Seq<ServiceDescriptor>, namespace: Seq<char>)
    requires
        forall|i: int| 0 <= i < services.len() ==> #[trigger] parsed_url(services[i].address@) is Some,
    ensures
        endpoint_for(services, namespace) is Some <==> exists|i: int|
            0 <= i < services.len() && #[trigger] services[i].namespace@ == namespace,
        forall|i: int|
            0 <= i < services.len() && #[trigger] services[i].namespace@ == namespace && (forall|
                j: int,
            |
                0 <= j < i ==> services[j].namespace@ != namespace) ==> endpoint_for(
                services,
                namespace,
            ) == parsed_url(services[i].address@),
    decreases services.len(),
{
    if services.len() > 0 {
        let front = services.drop_last();
        let n = services.len() - 1;
        assert forall|i: int| 0 <= i < front.len() implies #[trigger] parsed_url(
            front[i].address@,
        ) is Some by {
            assert(front[i] == services[i]);
            assert(parsed_url(services[i].address@) is Some);
        }
        lemma_endpoint_of_first_entry(front, namespace);
        assert(parsed_url(services[n].address@) is Some);
        if endpoint_for(front, namespace) is Some {
            let k = choose|k: int| 0 <= k < front.len() && #[trigger] front[k].namespace@ == namespace;
            assert(services[k] == front[k]);
            assert forall|i: int|
                0 <= i < services.len() && #[trigger] services[i].namespace@ == namespace && (forall|
                    j: int,
                |
                    0 <= j < i ==> services[j].namespace@ != namespace) implies endpoint_for(
                services,
                namespace,
            ) == parsed_url(services[i].address@) by {
                if i >= k + 1 {
                    assert(services[k].namespace@ == namespace);
                }
                assert(front[i] == services[i]);
                assert forall|j: int| 0 <= j < i implies front[j].namespace@ != namespace by {
                    assert(front[j] == services[j]);
                }
            }
        } else {
            assert forall|i: int| 0 <= i < n implies services[i].namespace@ != namespace by {
                assert(front[i] == services[i]);
            }
            if services[n].namespace@ != namespace {
                assert forall|i: int| 0 <= i < services.len() implies #[trigger] services[i].namespace@
                    != namespace by {
                    if i < n {
                        assert(front[i] == services[i]);
                    }
                }
            }
        }
    }
}

/// Binding a response that it accepts yields a media endpoint exactly when
/// some entry is in the media namespace, and a pan-tilt-zoom endpoint exactly
/// when some entry is in that namespace; each is the normalized address of
/// the first such entry.
pub proof fn lemma_endpoints_follow_namespaces(
    base: Seq<char>,
    device_service: Seq<char>,
    services: Seq<ServiceDescriptor>,
    r: Result<ServiceEndpoints, BindError>,
)
    requires
        binding_outcome(base, device_service, services, r),
        r is Ok,
    ensures
        r->Ok_0.media is Some <==> exists|i: int|
            0 <= i < services.len() && #[trigger] services[i].namespace@ == MEDIA_NAMESPACE@,
        r->Ok_0.ptz is Some <==> exists|i: int|
            0 <= i < services.len() && #[trigger] services[i].namespace@ == PTZ_NAMESPACE@,
        forall|i: int|
            0 <= i < services.len() && #[trigger] services[i].namespace@ == MEDIA_NAMESPACE@ && (
            forall|j: int| 0 <= j < i ==> services[j].namespace@ != MEDIA_NAMESPACE@) ==> text_of(
                r->Ok_0.media,
            ) == parsed_url(services[i].address@),
        forall|i: int|
            0 <= i < services.len() && #[trigger] services[i].namespace@ == PTZ_NAMESPACE@ && (
            forall|j: int| 0 <= j < i ==> services[j].namespace@ != PTZ_NAMESPACE@) ==> text_of(
                r->Ok_0.ptz,
            ) == parsed_url(services[i].address@),
{
    lemma_no_failure_at_any_entry(base, device_service, services);
    assert forall|i: int| 0 <= i < services.len() implies #[trigger] parsed_url(
        services[i].address@,
    ) is Some by {
        assert(entry_error(base, device_service, services[i]) is None);
    }
    lemma_endpoint_of_first_entry(services, MEDIA_NAMESPACE@);
    lemma_endpoint_of_first_entry(services, PTZ_NAMESPACE@);
}

/// A failing entry makes the whole response fail, and with the error of that
/// entry when every entry before it passes.
proof fn lemma_failing_entry(
    base: Seq<char>,
    device_service: Seq<char>,
    services: Seq<ServiceDescriptor>,
    i: int,
)
    requires
        0 <= i < services.len(),
        entry_error(base, device_service, services[i]) is Some,
    ensures
        first_failure(base, device_service, services) is Some,
        first_failure(base, device_service, services.take(i)) is None ==> first_failure(
            base,
            device_service,
            services,
        ) == entry_error(base, device_service, services[i]),
{
    if first_failure(base, device_service, services) is None {
        lemma_no_failure_at_any_entry(base, device_service, services);
    }
    if first_failure(base, device_service, services.take(i)) is None {
        assert(services.take(i + 1).drop_last() =~= services.take(i));
        assert(services.take(i + 1).last() == services[i]);
        lemma_failure_of_prefix(base, device_service, services, i + 1);
    }
}

/// An advertised address that parses but lies outside the base address makes
/// binding fail, with a trust boundary error when no earlier entry failed.
pub proof fn lemma_outside_address_rejected(
    base: Seq<char>,
    device_service: Seq<char>,
    services: Seq<ServiceDescriptor>,
    r: Result<ServiceEndpoints, BindError>,
    i: int,
)
    requires
        binding_outcome(base, device_service, services, r),
        0 <= i < services.len(),
        parsed_url(services[i].address@) is Some,
        !is_prefix_of(base, parsed_url(services[i].address@)->Some_0),
    ensures
        r is Err,
        first_failure(base, device_service, services.take(i)) is None ==> r == Err::<
            ServiceEndpoints,
            BindError,
        >(BindError::TrustBoundaryError),
{
    lemma_failing_entry(base, device_service, services, i);
}

/// A device management entry, inside the base address, whose address is not
/// the one used for discovery makes binding fail, with a consistency error
/// when no earlier entry failed.
pub proof fn lemma_management_mismatch_rejected(
    base: Seq<char>,
    device_service: Seq<char>,
    services: Seq<ServiceDescriptor>,
    r: Result<ServiceEndpoints, BindError>,
    i: int,
)
    requires
        binding_outcome(base, device_service, services, r),
        0 <= i < services.len(),
        services[i].namespace@ == DEVICE_NAMESPACE@,
        services[i].address@ != device_service,
        parsed_url(services[i].address@) is Some,
        is_prefix_of(base, parsed_url(services[i].address@)->Some_0),
    ensures
        r is Err,
        first_failure(base, device_service, services.take(i)) is None ==> r == Err::<
            ServiceEndpoints,
            BindError,
        >(BindError::ConsistencyError),
{
    lemma_failing_entry(base, device_service, services, i);
}

} // verus!
