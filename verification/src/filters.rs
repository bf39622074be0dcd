//! Filters in template expressions (`{{ item | local_ip }}`).
use vstd::prelude::*;

use crate::text::{owned, split_on, split_str, str_eq, trim, trim_str};

verus! {

/// A filter applied to a resolved value.
#[derive(Debug, Clone, Copy, PartialEq, Eq, Structural)]
pub enum Filter {
    /// Replace a loopback host in a URL with the machine's LAN address.
    LocalIp,
}

/// Why a filter failed on a value.
#[derive(Debug, Clone, Copy, PartialEq, Eq, Structural)]
pub enum FilterFailure {
    /// The value is not a URL.
    InvalidUrl,
    /// The LAN address could not be determined.
    NoLanAddress,
    /// The LAN address could not be set as the URL's host.
    CannotSetHost,
}

/// The failure an outcome code stands for.
pub open spec fn failure_of_code(c: int) -> FilterFailure {
    if c == 0 {
        FilterFailure::InvalidUrl
    } else if c == 1 {
        FilterFailure::NoLanAddress
    } else {
        FilterFailure::CannotSetHost
    }
}

/// Why a filter could not be parsed or applied.
#[derive(Debug)]
pub enum FilterError {
    /// No filter has this name.
    UnknownFilter { name: String },
    /// A filter in an expression is unknown.
    InExpression { expression: String, name: String },
    /// `local_ip`: the value is not a URL.
    InvalidUrl { value: String },
    /// `local_ip`: the LAN address could not be determined.
    NoLanAddress,
    /// `local_ip`: the LAN address could not be set as the URL's host.
    CannotSetHost { address: String },
}

/// The filter with a given name.
pub open spec fn spec_filter_named(name: Seq<char>) -> Option<Filter> {
    if name == "local_ip"@ {
        Some(Filter::LocalIp)
    } else {
        None
    }
}

impl Filter {
    /// Parse a filter name into a `Filter` variant.
    pub fn parse(name: &str) -> (r: Result<Filter, FilterError>)
        ensures
            r matches Ok(f) ==> spec_filter_named(name@) == Some(f),
            r is Err ==> spec_filter_named(name@) is None,
            r matches Err(e) ==> (e matches FilterError::UnknownFilter { name: n } && n@ == name@),
    {
        if str_eq(name, "local_ip") {
            Ok(Filter::LocalIp)
        } else {
            Err(FilterError::UnknownFilter { name: owned(name) })
        }
    }

    /// Apply this filter to a resolved value.
    pub fn apply(&self, value: &str) -> (r: Result<String, FilterError>)
        ensures
            local_ip_outcome(value@, r),
    {
        match self {
            Filter::LocalIp => apply_local_ip(value),
        }
    }
}

/// What parsing an expression's inner text gives: the trimmed item ID before the
/// first `|`, and a filter for each trimmed name after it; or the first
/// unknown filter name.
pub open spec fn spec_parse_expression(inner: Seq<char>) -> Result<(Seq<char>, Seq<Filter>), Seq<char>> {
    let parts = split_on(inner, '|');
    match first_unknown(parts.drop_first()) {
        Some(bad) => Err(bad),
        None => Ok(
            (
                trim(parts[0]),
                parts.drop_first().map_values(|p: Seq<char>| spec_filter_named(trim(p))->0),
            ),
        ),
    }
}

/// The first trimmed name among `names` that is no filter.
pub open spec fn first_unknown(names: Seq<Seq<char>>) -> Option<Seq<char>>
    decreases names.len(),
{
    if names.len() == 0 {
        None
    } else if spec_filter_named(trim(names[0])) is None {
        Some(trim(names[0]))
    } else {
        first_unknown(names.drop_first())
    }
}

/// Parse the content inside `{{ ... }}` into an item ID and a filter pipeline.
pub fn parse_expression(inner: &str) -> (r: Result<(String, Vec<Filter>), FilterError>)
    ensures
        r matches Ok((id, fs)) ==> spec_parse_expression(inner@) == Ok::<
            (Seq<char>, Seq<Filter>),
            Seq<char>,
        >((id@, fs@)),
        r matches Err(e) ==> e matches FilterError::InExpression { expression, name }
            && expression@ == inner@ && spec_parse_expression(inner@) == Err::<
            (Seq<char>, Seq<Filter>),
            Seq<char>,
        >(name@),
{
    let parts = split_str(inner, '|');
    proof {
        crate::text::lemma_split_on_nonempty(inner@, '|');
    }
    let ghost ps = split_on(inner@, '|');
    let item_id = trim_str(parts[0].as_str());
    let mut filters: Vec<Filter> = Vec::new();
    let mut i: usize = 1;
    while i < parts.len()
        invariant
            1 <= i <= parts@.len(),
            ps == split_on(inner@, '|'),
            parts@.len() == ps.len(),
            forall|k: int| 0 <= k < parts@.len() ==> #[trigger] parts@[k]@ == ps[k],
            first_unknown(ps.drop_first()) == first_unknown(ps.skip(i as int)),
            filters@ == ps.drop_first().take(i - 1).map_values(
                |p: Seq<char>| spec_filter_named(trim(p))->0,
            ),
            forall|k: int| 0 <= k < i - 1 ==> spec_filter_named(trim(#[trigger] ps.drop_first()[k])) is Some,
        decreases parts.len() - i,
    {
        let name = trim_str(parts[i].as_str());
        let ghost rest = ps.skip(i as int);
        assert(rest[0] == ps[i as int]);
        match Filter::parse(name.as_str()) {
            Ok(f) => {
                filters.push(f);
                proof {
                    assert(rest.drop_first() =~= ps.skip(i + 1));
                    assert(ps.drop_first().take(i as int) =~= ps.drop_first().take(i - 1).push(
                        ps[i as int],
                    ));
                }
            },
            Err(_) => {
                proof {
                    assert(name@ == trim(ps[i as int]));
                    assert(first_unknown(rest) == Some(trim(rest[0])));
                    assert(first_unknown(ps.drop_first()) == Some(name@));
                }
                return Err(FilterError::InExpression { expression: owned(inner), name });
            },
        }
        i = i + 1;
    }
    proof {
        assert(ps.drop_first().take(i - 1) =~= ps.drop_first());
        assert(ps.skip(i as int).len() == 0);
    }
    Ok((item_id, filters))
}

// ---------------------------------------------------------------------------
// The local_ip filter
// ---------------------------------------------------------------------------

/// What the `url` crate gives for a string parsed as a URL: its host text,
/// if it has a host; nothing at all when the string is not a URL.
pub uninterp spec fn url_host_of(s: Seq<char>) -> Option<Option<Seq<char>>>;

/// The text of the URL parsed from `s` with its host set to `host`, or nothing
/// when `s` is not a URL or `host` cannot be its host.
pub uninterp spec fn url_with_host(s: Seq<char>, host: Seq<char>) -> Option<Seq<char>>;

/// `url::Url::parse` followed by `Url::host_str`.
#[verifier::external_body]
fn parse_url_host(s: &str) -> (r: Option<Option<String>>)
    ensures
        r is Some <==> url_host_of(s@) is Some,
        r matches Some(h) ==> url_host_of(s@) == Some(crate::store::opt_view(h)),
{
    url::Url::parse(s).ok().map(|u| u.host_str().map(|h| h.to_string()))
}

/// `url::Url::parse`, `Url::set_host(Some(host))` and the URL's text.
#[verifier::external_body]
fn replace_url_host(s: &str, host: &str) -> (r: Option<String>)
    ensures
        r is Some <==> url_with_host(s@, host@) is Some,
        r matches Some(t) ==> url_with_host(s@, host@) == Some(t@),
{
    let mut u = url::Url::parse(s).ok()?;
    u.set_host(Some(host)).ok()?;
    Some(u.to_string())
}

/// `local_ip_address::local_ip`: the text of this machine's LAN address, when
/// one can be found. It depends on the machine's network interfaces, so
/// nothing is promised of it.
#[verifier::external_body]
pub(crate) fn lan_address() -> (r: Option<String>) {
    local_ip_address::local_ip().ok().map(|ip| ip.to_string())
}

/// Whether a host names this machine's loopback interface.
pub open spec fn spec_is_loopback(host: Seq<char>) -> bool {
    host == "localhost"@ || host == "127.0.0.1"@ || host == "::1"@
}

/// Whether a host names this machine's loopback interface.
pub fn is_loopback(host: &str) -> (r: bool)
    ensures
        r == spec_is_loopback(host@),
{
    str_eq(host, "localhost") || str_eq(host, "127.0.0.1") || str_eq(host, "::1")
}

/// The host a URL names: its host text, empty when it has none.
pub open spec fn host_text(h: Option<Seq<char>>) -> Seq<char> {
    match h {
        Some(t) => t,
        None => Seq::empty(),
    }
}

/// What `local_ip` gives for `value` when the LAN address is `lan` (none when
/// it cannot be determined).
pub open spec fn spec_local_ip(value: Seq<char>, lan: Option<Seq<char>>) -> Result<Seq<char>, int> {
    match url_host_of(value) {
        None => Err(0),
        Some(h) => if !spec_is_loopback(host_text(h)) {
            Ok(value)
        } else {
            match lan {
                None => Err(1),
                Some(ip) => match url_with_host(value, ip) {
                    None => Err(2),
                    Some(t) => Ok(t),
                },
            }
        },
    }
}

/// The error a filter outcome code stands for.
pub open spec fn filter_error_code(e: FilterError) -> int {
    match e {
        FilterError::InvalidUrl { .. } => 0,
        FilterError::NoLanAddress => 1,
        FilterError::CannotSetHost { .. } => 2,
        _ => 3,
    }
}

/// Whether `r` is what `local_ip` gives for `value` with LAN address `lan`.
pub open spec fn local_ip_result(value: Seq<char>, lan: Option<Seq<char>>, r: Result<String, FilterError>) -> bool {
    match r {
        Ok(s) => spec_local_ip(value, lan) == Ok::<Seq<char>, int>(s@),
        Err(e) => spec_local_ip(value, lan) == Err::<Seq<char>, int>(filter_error_code(e)),
    }
}

/// Whether `r` is what `local_ip` gives for `value` with some LAN address.
pub open spec fn local_ip_outcome(value: Seq<char>, r: Result<String, FilterError>) -> bool {
    exists|lan: Option<Seq<char>>| #[trigger] local_ip_result(value, lan, r)
}

/// Replace a loopback host (`localhost`, `127.0.0.1`, `::1`) in a URL with
/// `lan`, the machine's LAN address when it is known. Non-loopback URLs are
/// returned unchanged.
pub fn replace_loopback_host(value: &str, lan: Option<String>) -> (r: Result<String, FilterError>)
    ensures
        local_ip_result(value@, crate::store::opt_view(lan), r),
{
    let host = parse_url_host(value);
    local_ip_for_host(value, host, lan)
}

/// What `local_ip` gives for `value`, given what parsing it as a URL gave
/// (`None`: not a URL; `Some(h)`: its host, if any) and the LAN address.
pub open spec fn local_ip_decision(value: Seq<char>, host: Option<Option<Seq<char>>>, lan: Option<Seq<char>>) -> Result<Option<Seq<char>>, int> {
    match host {
        None => Err(0),
        Some(h) => if !spec_is_loopback(host_text(h)) {
            Ok(None)
        } else {
            match lan {
                None => Err(1),
                Some(ip) => Ok(Some(ip)),
            }
        },
    }
}

/// The `local_ip` decision on a parsed host: keep the value when its host is
/// not a loopback host, fail when it is no URL or no LAN address is known,
/// else set the LAN address as its host.
pub fn local_ip_for_host(value: &str, host: Option<Option<String>>, lan: Option<String>) -> (r: Result<String, FilterError>)
    ensures
        ({
            let hv = match host {
                Some(h) => Some(crate::store::opt_view(h)),
                None => None,
            };
            &&& local_ip_decision(value@, hv, crate::store::opt_view(lan)) matches Ok(None) ==> (r matches Ok(s) && s@ == value@)
            &&& local_ip_decision(value@, hv, crate::store::opt_view(lan)) matches Err(c) ==> (r matches Err(e) && filter_error_code(e) == c)
            &&& local_ip_decision(value@, hv, crate::store::opt_view(lan)) matches Ok(Some(ip)) ==> (match url_with_host(value@, ip) {
                None => r matches Err(e) && filter_error_code(e) == 2,
                Some(t) => r matches Ok(s) && s@ == t,
            })
        }),
{
    let host = match host {
        None => {
            return Err(FilterError::InvalidUrl { value: owned(value) });
        },
        Some(Some(h)) => h,
        Some(None) => String::new(),
    };
    if !is_loopback(host.as_str()) {
        return Ok(owned(value));
    }
    match lan {
        None => Err(FilterError::NoLanAddress),
        Some(ip) => match replace_url_host(value, ip.as_str()) {
            None => Err(FilterError::CannotSetHost { address: ip }),
            Some(t) => Ok(t),
        },
    }
}

/// Replace loopback hosts in a URL with the machine's LAN IP address.
/// Non-loopback URLs are returned unchanged.
pub fn apply_local_ip(value: &str) -> (r: Result<String, FilterError>)
    ensures
        local_ip_outcome(value@, r),
        url_host_of(value@) is None ==> r matches Err(FilterError::InvalidUrl { .. }),
        url_host_of(value@) is Some && !spec_is_loopback(host_text(url_host_of(value@)->0)) ==> (r matches Ok(
            s,
        ) && s@ == value@),
{
    let lan = lan_address();
    let r = replace_loopback_host(value, lan);
    assert(local_ip_result(value@, crate::store::opt_view(lan), r));
    r
}

/// What applying a pipeline of filters to `value` gives, left to right: each
/// filter (all are `local_ip`) applied to the previous result, stopping at the
/// first error.
pub open spec fn pipeline_outcome(value: Seq<char>, filters: Seq<Filter>, r: Result<String, FilterError>) -> bool
    decreases filters.len(),
{
    if filters.len() == 0 {
        r matches Ok(s) && s@ == value
    } else {
        exists|mid: Result<String, FilterError>|
            #[trigger] local_ip_outcome(value, mid) && match mid {
                Ok(m) => pipeline_outcome(m@, filters.drop_first(), r),
                Err(_) => r == mid,
            }
    }
}

/// Running a pipeline and then one more filter on its value is a run of
/// the longer pipeline; a failure of the shorter one is the longer one's
/// outcome too.
pub proof fn law_apply_filters_snoc(
    value: Seq<char>,
    filters: Seq<Filter>,
    f: Filter,
    mid: Result<String, FilterError>,
    r: Result<String, FilterError>,
)
    requires
        pipeline_outcome(value, filters, mid),
        match mid {
            Ok(m) => pipeline_outcome(m@, seq![f], r),
            Err(_) => r == mid,
        },
    ensures
        pipeline_outcome(value, filters.push(f), r),
    decreases filters.len(),
{
    if filters.len() == 0 {
        assert(filters.push(f) =~= seq![f]);
    } else {
        assert(filters.push(f).drop_first() =~= filters.drop_first().push(f));
        let m1 = choose|m1: Result<String, FilterError>|
            #[trigger] local_ip_outcome(value, m1) && match m1 {
                Ok(m) => pipeline_outcome(m@, filters.drop_first(), mid),
                Err(_) => mid == m1,
            };
        match m1 {
            Ok(m) => {
                law_apply_filters_snoc(m@, filters.drop_first(), f, mid, r);
            },
            Err(_) => {},
        }
        assert(local_ip_outcome(value, m1) && match m1 {
            Ok(m) => pipeline_outcome(m@, filters.push(f).drop_first(), r),
            Err(_) => r == m1,
        });
    }
}

/// Apply a filter pipeline to a value, left to right.
pub fn apply_filters(value: &str, filters: &[Filter]) -> (r: Result<String, FilterError>)
    ensures
        pipeline_outcome(value@, filters@, r),
{
    let mut result = owned(value);
    let mut i: usize = 0;
    assert(filters@.skip(0) =~= filters@);
    while i < filters.len()
        invariant
            i <= filters@.len(),
            forall|r: Result<String, FilterError>|
                #[trigger] pipeline_outcome(result@, filters@.skip(i as int), r) ==> pipeline_outcome(
                    value@,
                    filters@,
                    r,
                ),
        decreases filters.len() - i,
    {
        let ghost rest = filters@.skip(i as int);
        assert(rest.drop_first() =~= filters@.skip(i + 1));
        let next = filters[i].apply(result.as_str());
        match next {
            Ok(s) => {
                proof {
                    assert forall|r: Result<String, FilterError>|
                        #[trigger] pipeline_outcome(s@, filters@.skip(i + 1), r) implies pipeline_outcome(
                        value@,
                        filters@,
                        r,
                    ) by {
                        assert(local_ip_outcome(result@, next));
                        assert(pipeline_outcome(result@, rest, r));
                    }
                }
                result = s;
            },
            Err(e) => {
                proof {
                    let out: Result<String, FilterError> = Err(e);
                    assert(local_ip_outcome(result@, next));
                    assert(pipeline_outcome(result@, rest, out));
                }
                return Err(e);
            },
        }
        i = i + 1;
    }
    assert(pipeline_outcome(result@, filters@.skip(i as int), Ok(result)));
    Ok(result)
}

/// What applying `filters` to `value` gives, left to right, when the LAN
/// address is `lan`: the final value, or the first failure.
pub open spec fn spec_pipeline(value: Seq<char>, filters: Seq<Filter>, lan: Option<Seq<char>>) -> Result<Seq<char>, FilterFailure>
    decreases filters.len(),
{
    if filters.len() == 0 {
        Ok(value)
    } else {
        match spec_local_ip(value, lan) {
            Err(c) => Err(failure_of_code(c)),
            Ok(v) => spec_pipeline(v, filters.drop_first(), lan),
        }
    }
}

/// A pipeline with one more filter at its end runs the shorter pipeline and
/// then that filter on its value; the first failure stops it.
pub proof fn law_pipeline_snoc(value: Seq<char>, filters: Seq<Filter>, f: Filter, lan: Option<Seq<char>>)
    ensures
        spec_pipeline(value, filters.push(f), lan) == match spec_pipeline(value, filters, lan) {
            Ok(w) => spec_pipeline(w, seq![f], lan),
            Err(e) => Err(e),
        },
    decreases filters.len(),
{
    if filters.len() == 0 {
        assert(filters.push(f) =~= seq![f]);
    } else {
        assert(filters.push(f).drop_first() =~= filters.drop_first().push(f));
        match spec_local_ip(value, lan) {
            Err(_) => {},
            Ok(v) => {
                law_pipeline_snoc(v, filters.drop_first(), f, lan);
            },
        }
    }
}

/// An empty pipeline gives back the value.
pub proof fn law_pipeline_empty(value: Seq<char>, lan: Option<Seq<char>>)
    ensures
        spec_pipeline(value, Seq::empty(), lan) == Ok::<Seq<char>, FilterFailure>(value),
{
}

fn clone_opt_string(o: &Option<String>) -> (r: Option<String>)
    ensures
        crate::store::opt_view(r) == crate::store::opt_view(*o),
{
    match o {
        Some(s) => Some(s.clone()),
        None => None,
    }
}

/// Apply a filter pipeline to a value, left to right, with a known LAN
/// address (none when it could not be determined).
pub fn apply_filters_with(value: &str, filters: &Vec<Filter>, lan: &Option<String>) -> (r: Result<String, FilterFailure>)
    ensures
        r matches Ok(s) ==> spec_pipeline(value@, filters@, crate::store::opt_view(*lan)) == Ok::<
            Seq<char>,
            FilterFailure,
        >(s@),
        r matches Err(f) ==> spec_pipeline(value@, filters@, crate::store::opt_view(*lan)) == Err::<
            Seq<char>,
            FilterFailure,
        >(f),
{
    let mut result = owned(value);
    let mut i: usize = 0;
    assert(filters@.skip(0) =~= filters@);
    while i < filters.len()
        invariant
            i <= filters@.len(),
            spec_pipeline(value@, filters@, crate::store::opt_view(*lan)) == spec_pipeline(
                result@,
                filters@.skip(i as int),
                crate::store::opt_view(*lan),
            ),
        decreases filters.len() - i,
    {
        let ghost rest = filters@.skip(i as int);
        assert(rest.drop_first() =~= filters@.skip(i + 1));
        let next = replace_loopback_host(result.as_str(), clone_opt_string(lan));
        match next {
            Ok(s) => {
                result = s;
            },
            Err(e) => {
                let f = match e {
                    FilterError::InvalidUrl { .. } => FilterFailure::InvalidUrl,
                    FilterError::NoLanAddress => FilterFailure::NoLanAddress,
                    _ => FilterFailure::CannotSetHost,
                };
                return Err(f);
            },
        }
        i = i + 1;
    }
    assert(filters@.skip(i as int).len() == 0);
    Ok(result)
}

} // verus!
