//! One opened display: how opening it went, and the attribute queries.
use vstd::prelude::*;
use vstd::string::StringExecFns;
use crate::vaapi::caps::{ConfigAttrib, CONFIG_ATTRIB_COUNT, VA_ATTRIB_NOT_SUPPORTED};
use crate::vaapi::error::{VaError, VA_STATUS_SUCCESS};

verus! {

/// A display that was opened on a device node.
#[derive(Clone, Debug, PartialEq, Eq)]
pub struct DrmDisplay {
    pub path: String,
    pub vendor: String,
    pub version_major: u32,
    pub version_minor: u32,
}

/// How the opening of a display went: whether the driver gave a display
/// for the device node at all, the status of the initialization with the
/// driver's text for it where it has one, the version the initialization
/// reported, and the vendor string where the driver has one.
#[derive(Clone, Debug, PartialEq, Eq)]
pub struct DisplayOpening {
    pub display_found: bool,
    pub init_status: i32,
    pub init_text: Option<String>,
    pub version_major: i32,
    pub version_minor: i32,
    pub vendor: Option<String>,
}

/// The vendor string of a display: the driver's, or the empty string where
/// the driver has none.
pub open spec fn vendor_text(vendor: Option<String>) -> Seq<char> {
    match vendor {
        Some(v) => v@,
        None => Seq::empty(),
    }
}

impl DrmDisplay {
    /// The display on the device node at `path`, from how its opening went.
    /// Where the driver gave no display, that is the failure. Where the
    /// initialization failed, the failure holds its status and the driver's
    /// text for it. Otherwise the display is open, under the version the
    /// driver reported and under its vendor string.
    pub fn new(path: String, opening: DisplayOpening) -> (r: Result<DrmDisplay, VaError>)
        ensures
            !opening.display_found ==> (r matches Err(VaError::FailedToGetDisplay(p)) && p@
                == path@),
            opening.display_found && opening.init_status != VA_STATUS_SUCCESS
                && opening.init_text is None ==> r == Err::<DrmDisplay, VaError>(
                VaError::OperationFailed(opening.init_status),
            ),
            opening.display_found && opening.init_status != VA_STATUS_SUCCESS
                && opening.init_text is Some ==> (r matches Err(VaError::OperationFailedT(t, s))
                && t@ == opening.init_text.unwrap()@ && s == opening.init_status),
            opening.display_found && opening.init_status == VA_STATUS_SUCCESS ==> (r matches Ok(d)
                && d.path@ == path@ && d.vendor@ == vendor_text(opening.vendor)
                && d.version_major == opening.version_major as u32 && d.version_minor
                == opening.version_minor as u32),
    {
        let DisplayOpening {
            display_found,
            init_status,
            init_text,
            version_major,
            version_minor,
            vendor,
        } = opening;
        if !display_found {
            return Err(VaError::FailedToGetDisplay(path));
        }
        if init_status != VA_STATUS_SUCCESS {
            return Err(VaError::from_status(init_status, init_text));
        }
        let vendor = match vendor {
            Some(v) => v,
            None => String::new(),
        };
        Ok(
            DrmDisplay {
                path,
                vendor,
                version_major: #[verifier::truncate]
                (version_major as u32),
                version_minor: #[verifier::truncate]
                (version_minor as u32),
            },
        )
    }
}

/// How many entries a list can have that the driver fills, from the
/// number the driver names. A negative number is a failure of the driver,
/// reported under the name of the function that returned it.
pub fn list_capacity(count: i32, complaint: &'static str) -> (r: Result<usize, VaError>)
    ensures
        count >= 0 ==> r == Ok::<usize, VaError>(count as usize),
        count < 0 ==> (r matches Err(VaError::OperationFailedT(t, s)) && t@ == complaint@ && s
            == -1),
{
    if count < 0 {
        Err(VaError::OperationFailedT(String::from_str(complaint), -1))
    } else {
        Ok(count as usize)
    }
}

/// How many profiles a display can list at most, from what the driver
/// names.
pub fn profile_capacity(max_num_profiles: i32) -> (r: Result<usize, VaError>)
    ensures
        max_num_profiles >= 0 ==> r == Ok::<usize, VaError>(max_num_profiles as usize),
        max_num_profiles < 0 ==> (r matches Err(VaError::OperationFailedT(t, s)) && t@
            == "vaMaxNumProfiles returned a negative value"@ && s == -1),
{
    list_capacity(max_num_profiles, "vaMaxNumProfiles returned a negative value")
}

/// How many entrypoints a profile can have at most, from what the driver
/// names.
pub fn entrypoint_capacity(max_num_entrypoints: i32) -> (r: Result<usize, VaError>)
    ensures
        max_num_entrypoints >= 0 ==> r == Ok::<usize, VaError>(max_num_entrypoints as usize),
        max_num_entrypoints < 0 ==> (r matches Err(VaError::OperationFailedT(t, s)) && t@
            == "vaMaxNumEntrypoints returned a negative value"@ && s == -1),
{
    list_capacity(max_num_entrypoints, "vaMaxNumEntrypoints returned a negative value")
}

/// The list that is handed to the driver to be filled in: one entry for
/// every attribute kind, each marked as not supported.
pub open spec fn blank_attributes() -> Seq<ConfigAttrib> {
    Seq::new(
        CONFIG_ATTRIB_COUNT as nat,
        |i: int| ConfigAttrib { kind: i as u32, value: VA_ATTRIB_NOT_SUPPORTED },
    )
}

/// The list that is handed to the driver to be filled in.
pub fn attribute_request() -> (r: Vec<ConfigAttrib>)
    ensures
        r@ == blank_attributes(),
{
    let mut r: Vec<ConfigAttrib> = Vec::new();
    let mut i: u32 = 0;
    while i < CONFIG_ATTRIB_COUNT
        invariant
            i <= CONFIG_ATTRIB_COUNT,
            r@.len() == i,
            forall|k: int|
                0 <= k < i ==> #[trigger] r@[k] == (ConfigAttrib {
                    kind: k as u32,
                    value: VA_ATTRIB_NOT_SUPPORTED,
                }),
        decreases CONFIG_ATTRIB_COUNT - i,
    {
        r.push(ConfigAttrib { kind: i, value: VA_ATTRIB_NOT_SUPPORTED });
        i = i + 1;
    }
    assert(r@ =~= blank_attributes());
    r
}

/// The attributes that the driver supports among those it filled in: the
/// ones it did not leave marked as not supported, in their order.
pub open spec fn supported(attributes: Seq<ConfigAttrib>) -> Seq<ConfigAttrib>
    decreases attributes.len(),
{
    if attributes.len() == 0 {
        Seq::empty()
    } else {
        let before = supported(attributes.drop_last());
        if attributes.last().value != VA_ATTRIB_NOT_SUPPORTED {
            before.push(attributes.last())
        } else {
            before
        }
    }
}

/// The attributes of a profile and entrypoint, from the list that the
/// driver filled in: what it left marked as not supported is dropped.
pub fn get_config_attributes(filled: &Vec<ConfigAttrib>) -> (r: Vec<ConfigAttrib>)
    ensures
        r@ == supported(filled@),
{
    let mut r: Vec<ConfigAttrib> = Vec::new();
    let mut i: usize = 0;
    assert(filled@.take(0) =~= Seq::<ConfigAttrib>::empty());
    while i < filled.len()
        invariant
            i <= filled@.len(),
            r@ == supported(filled@.take(i as int)),
        decreases filled@.len() - i,
    {
        proof {
            let next = filled@.take(i + 1);
            assert(next.drop_last() =~= filled@.take(i as int));
            assert(next.last() == filled@[i as int]);
        }
        if filled[i].value != VA_ATTRIB_NOT_SUPPORTED {
            r.push(filled[i]);
        }
        i = i + 1;
    }
    assert(filled@.take(filled@.len() as int) =~= filled@);
    r
}

} // verus!
