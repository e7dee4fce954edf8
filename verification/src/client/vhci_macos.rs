//! The macOS driver: the calls it takes, and what it gives back.

use vstd::prelude::*;
use vstd::slice::{slice_subrange, slice_to_vec};
use vstd::string::*;

use crate::client::error::ClientError;
use crate::endian::{le32_at, read_le32};
use crate::text::{decimal, decimal_string};

verus! {

/// A service of the kernel.
#[allow(non_camel_case_types)]
pub type io_service_t = u32;

/// A connection to a service.
#[allow(non_camel_case_types)]
pub type io_connect_t = u32;

/// An object of the kernel.
#[allow(non_camel_case_types)]
pub type io_object_t = u32;

/// A port of the kernel.
#[allow(non_camel_case_types)]
pub type mach_port_t = u32;

/// The result of a call.
#[allow(non_camel_case_types)]
pub type kern_return_t = i32;

/// The result of a call that succeeded.
pub const KERN_SUCCESS: kern_return_t = 0;

/// Create a virtual device.
pub const SELECTOR_CREATE_DEVICE: u32 = 0;

/// Destroy a virtual device.
pub const SELECTOR_DESTROY_DEVICE: u32 = 1;

/// Hand data from the network to a virtual device.
pub const SELECTOR_SUBMIT_INPUT: u32 = 2;

/// Ask for a request that a virtual device has pending.
pub const SELECTOR_GET_PENDING_OUTPUT: u32 = 3;

/// Ask for the number of virtual devices.
pub const SELECTOR_GET_DEVICE_COUNT: u32 = 4;

/// Configure a virtual device.
pub const SELECTOR_CONFIGURE_DEVICE: u32 = 5;

/// Complete a request.
pub const SELECTOR_COMPLETE_REQUEST: u32 = 10;

/// Size of the header of a pending request.
pub const PENDING_OUTPUT_HEADER_SIZE: usize = 24;

/// An input device.
pub const DEVICE_TYPE_HID: u32 = 1;

/// A storage device.
pub const DEVICE_TYPE_STORAGE: u32 = 2;

/// A serial device.
pub const DEVICE_TYPE_SERIAL: u32 = 3;

/// A network device.
pub const DEVICE_TYPE_NETWORK: u32 = 4;

/// An audio device.
pub const DEVICE_TYPE_AUDIO: u32 = 5;

/// A report descriptor.
pub const CONFIG_HID_REPORT_DESCRIPTOR: u32 = 1;

/// The size and number of sectors.
pub const CONFIG_STORAGE_GEOMETRY: u32 = 2;

/// The state of the serial line.
pub const CONFIG_SERIAL_LINE_STATE: u32 = 3;

/// The MAC address.
pub const CONFIG_NETWORK_MAC: u32 = 4;

/// The audio format.
pub const CONFIG_AUDIO_FORMAT: u32 = 5;

/// The USB device descriptor.
pub const CONFIG_DEVICE_DESCRIPTOR: u32 = 6;

/// A request of a virtual device that goes over the network.
#[derive(Debug, Clone)]
pub struct PendingRequest {
    pub device_id: u32,
    pub endpoint: u32,
    /// Ties the response to the request.
    pub request_id: u32,
    pub data: Vec<u8>,
}

/// A call of the driver: what it is for, its numbers and its data.
#[derive(Debug, Clone)]
pub struct DriverCall {
    pub selector: u32,
    pub scalars: Vec<u64>,
    pub data: Vec<u8>,
}

impl DriverCall {
    /// The call has this purpose, these numbers and this data.
    pub open spec fn is(self, selector: u32, scalars: Seq<u64>, data: Seq<u8>) -> bool {
        self.selector == selector && self.scalars@ =~= scalars && self.data@ =~= data
    }
}

/// A connection to the driver.
#[derive(Debug)]
pub struct MacOSVhciDriver {
    pub connect: io_connect_t,
}

impl MacOSVhciDriver {
    /// The call that creates a virtual device.
    pub fn create_device(&self, device_type: u32, device_id: u32) -> (c: DriverCall)
        ensures
            c.is(SELECTOR_CREATE_DEVICE, seq![device_type as u64, device_id as u64], seq![]),
    {
        let mut scalars: Vec<u64> = Vec::new();
        scalars.push(device_type as u64);
        scalars.push(device_id as u64);
        DriverCall { selector: SELECTOR_CREATE_DEVICE, scalars, data: Vec::new() }
    }

    /// The call that destroys a virtual device.
    pub fn destroy_device(&self, device_id: u32) -> (c: DriverCall)
        ensures
            c.is(SELECTOR_DESTROY_DEVICE, seq![device_id as u64], seq![]),
    {
        let mut scalars: Vec<u64> = Vec::new();
        scalars.push(device_id as u64);
        DriverCall { selector: SELECTOR_DESTROY_DEVICE, scalars, data: Vec::new() }
    }

    /// The call that hands data from the network to a virtual device.
    pub fn submit_input(&self, device_id: u32, endpoint: u32, data: &[u8]) -> (c: DriverCall)
        ensures
            c.is(
                SELECTOR_SUBMIT_INPUT,
                seq![device_id as u64, endpoint as u64, data@.len() as u64],
                data@,
            ),
    {
        let mut scalars: Vec<u64> = Vec::new();
        scalars.push(device_id as u64);
        scalars.push(endpoint as u64);
        scalars.push(data.len() as u64);
        DriverCall { selector: SELECTOR_SUBMIT_INPUT, scalars, data: slice_to_vec(data) }
    }

    /// The call that completes a request.
    pub fn complete_request(
        &self,
        device_id: u32,
        request_id: u32,
        status: i32,
        data: &[u8],
    ) -> (c: DriverCall)
        ensures
            c.is(
                SELECTOR_COMPLETE_REQUEST,
                seq![device_id as u64, request_id as u64, (status as u32) as u64],
                data@,
            ),
    {
        let mut scalars: Vec<u64> = Vec::new();
        scalars.push(device_id as u64);
        scalars.push(request_id as u64);
        scalars.push(status as u32 as u64);
        DriverCall { selector: SELECTOR_COMPLETE_REQUEST, scalars, data: slice_to_vec(data) }
    }

    /// The call that configures a virtual device.
    pub fn configure_device(&self, device_id: u32, config_type: u32, data: &[u8]) -> (c: DriverCall)
        ensures
            c.is(
                SELECTOR_CONFIGURE_DEVICE,
                seq![device_id as u64, config_type as u64],
                data@,
            ),
    {
        let mut scalars: Vec<u64> = Vec::new();
        scalars.push(device_id as u64);
        scalars.push(config_type as u64);
        DriverCall { selector: SELECTOR_CONFIGURE_DEVICE, scalars, data: slice_to_vec(data) }
    }

    /// The call that asks for a pending request.
    pub fn poll_pending_output(&self, device_id: u32) -> (c: DriverCall)
        ensures
            c.is(SELECTOR_GET_PENDING_OUTPUT, seq![device_id as u64], seq![]),
    {
        let mut scalars: Vec<u64> = Vec::new();
        scalars.push(device_id as u64);
        DriverCall { selector: SELECTOR_GET_PENDING_OUTPUT, scalars, data: Vec::new() }
    }

    /// The call that asks how many virtual devices there are.
    pub fn count_devices(&self) -> (c: DriverCall)
        ensures
            c.is(SELECTOR_GET_DEVICE_COUNT, seq![], seq![]),
    {
        DriverCall {
            selector: SELECTOR_GET_DEVICE_COUNT,
            scalars: Vec::new(),
            data: Vec::new(),
        }
    }

    /// How many virtual devices there are, by what the driver gave back: of its
    /// number the low 32 bits.
    pub fn device_count(&self, kr: kern_return_t, output: u64) -> (r: Result<u32, ClientError>)
        ensures
            match r {
                Ok(n) => kr == KERN_SUCCESS && n == output as u32,
                Err(ClientError::IOKit { code, message }) => kr != KERN_SUCCESS && code == kr
                    && message@ == "device_count"@ + " failed"@,
                Err(_) => false,
            },
    {
        match check_kr(kr, "device_count") {
            Ok(_) => Ok(output as u32),
            Err(e) => Err(e),
        }
    }

    /// What the driver gave back for a poll: `output` is what it filled. It is
    /// nothing where nothing is pending, else a header and its data.
    pub fn get_pending_output(&self, kr: kern_return_t, output: &[u8]) -> (r: Result<
        Option<PendingRequest>,
        ClientError,
    >)
        ensures
            match r {
                Ok(None) => kr == KERN_SUCCESS && output@.len() == 0,
                Ok(Some(p)) => {
                    &&& kr == KERN_SUCCESS
                    &&& pending_complete(output@)
                    &&& p.device_id == le32_at(output@, 0)
                    &&& p.endpoint == le32_at(output@, 4)
                    &&& p.request_id == le32_at(output@, 16)
                    &&& p.data@ == output@.subrange(24, 24 + le32_at(output@, 8))
                },
                Err(ClientError::IOKit { code, message }) => if kr != KERN_SUCCESS {
                    code == kr && message@ == "get_pending_output failed"@
                } else {
                    &&& code == -1
                    &&& output@.len() > 0
                    &&& !pending_complete(output@)
                    &&& message@ == if output@.len() < 24 {
                        "get_pending_output: short header "@ + decimal(output@.len()) + " < 24"@
                    } else {
                        "get_pending_output: truncated payload "@ + decimal(
                            (24 + le32_at(output@, 8)) as nat,
                        ) + " > "@ + decimal(output@.len())
                    }
                },
                Err(_) => false,
            },
    {
        match check_kr(kr, "get_pending_output") {
            Ok(_) => {},
            Err(e) => {
                assert("get_pending_output"@ + " failed"@ =~= "get_pending_output failed"@) by {
                    reveal_strlit("get_pending_output");
                    reveal_strlit(" failed");
                    reveal_strlit("get_pending_output failed");
                }
                return Err(e);
            },
        }
        let n: usize = output.len();
        if n == 0 {
            return Ok(None);
        }
        if n < PENDING_OUTPUT_HEADER_SIZE {
            return Err(
                ClientError::IOKit {
                    code: -1,
                    message: "get_pending_output: short header ".to_owned().concat(
                        decimal_string(n as u64).as_str(),
                    ).concat(" < 24"),
                },
            );
        }
        let device_id = read_le32(output, 0);
        let endpoint = read_le32(output, 4);
        let data_length = read_le32(output, 8);
        let request_id = read_le32(output, 16);
        let end: u64 = PENDING_OUTPUT_HEADER_SIZE as u64 + data_length as u64;
        if end > n as u64 {
            return Err(
                ClientError::IOKit {
                    code: -1,
                    message: "get_pending_output: truncated payload ".to_owned().concat(
                        decimal_string(end).as_str(),
                    ).concat(" > ").concat(decimal_string(n as u64).as_str()),
                },
            );
        }
        let data = slice_to_vec(
            slice_subrange(output, PENDING_OUTPUT_HEADER_SIZE, end as usize),
        );
        Ok(Some(PendingRequest { device_id, endpoint, request_id, data }))
    }
}

/// Whether a header and all of its data are there.
pub open spec fn pending_complete(output: Seq<u8>) -> bool {
    output.len() >= 24 && 24 + le32_at(output, 8) <= output.len()
}

/// What the result of a call means.
pub fn check_kr(kr: kern_return_t, operation: &str) -> (r: Result<(), ClientError>)
    ensures
        match r {
            Ok(_) => kr == KERN_SUCCESS,
            Err(ClientError::IOKit { code, message }) => kr != KERN_SUCCESS && code == kr
                && message@ == operation@ + " failed"@,
            Err(_) => false,
        },
{
    if kr == KERN_SUCCESS {
        Ok(())
    } else {
        Err(
            ClientError::IOKit {
                code: kr,
                message: operation.to_owned().concat(" failed"),
            },
        )
    }
}

/// The type of virtual device that the class of a device alone calls for.
pub open spec fn type_of_device_class(class: u8) -> Option<u32> {
    if class == 0x03 {
        Some(DEVICE_TYPE_HID)
    } else if class == 0x08 {
        Some(DEVICE_TYPE_STORAGE)
    } else if class == 0x02 || class == 0x0a {
        Some(DEVICE_TYPE_SERIAL)
    } else if class == 0x01 {
        Some(DEVICE_TYPE_AUDIO)
    } else {
        None
    }
}

/// The type of virtual device that the class of an interface calls for.
pub open spec fn type_of_interface_class(class: u8) -> Option<u32> {
    if class == 0xe0 {
        Some(DEVICE_TYPE_NETWORK)
    } else {
        type_of_device_class(class)
    }
}

/// The type of virtual device that the first known interface class calls for,
/// or an input device where none is known.
pub open spec fn type_of_interfaces(classes: Seq<u8>) -> u32
    decreases classes.len(),
{
    if classes.len() == 0 {
        DEVICE_TYPE_HID
    } else {
        match type_of_interface_class(classes[0]) {
            Some(t) => t,
            None => type_of_interfaces(classes.skip(1)),
        }
    }
}

/// The type of virtual device for a device: by its class; else, for a
/// composite device with a communication interface, a network device; else by
/// the first known class of an interface.
pub open spec fn device_type(device_class: u8, classes: Seq<u8>) -> u32 {
    match type_of_device_class(device_class) {
        Some(t) => t,
        None => if device_class == 0xef && classes.contains(0x02) {
            DEVICE_TYPE_NETWORK
        } else {
            type_of_interfaces(classes)
        },
    }
}

/// The type of virtual device for a device.
pub fn device_type_from_usb(device_class: u8, interface_classes: &[u8]) -> (t: u32)
    ensures
        t == device_type(device_class, interface_classes@),
{
    match device_class {
        0x03 => {
            return DEVICE_TYPE_HID;
        },
        0x08 => {
            return DEVICE_TYPE_STORAGE;
        },
        0x02 | 0x0a => {
            return DEVICE_TYPE_SERIAL;
        },
        0x01 => {
            return DEVICE_TYPE_AUDIO;
        },
        _ => {},
    }
    if device_class == 0xef {
        let mut i: usize = 0;
        while i < interface_classes.len()
            invariant
                i <= interface_classes@.len(),
                device_class == 0xef,
                forall|j: int| 0 <= j < i ==> interface_classes@[j] != 0x02,
            decreases interface_classes.len() - i,
        {
            if interface_classes[i] == 0x02 {
                assert(interface_classes@.contains(0x02)) by {
                    assert(interface_classes@[i as int] == 0x02);
                }
                return DEVICE_TYPE_NETWORK;
            }
            i = i + 1;
        }
    }
    assert(!(device_class == 0xef && interface_classes@.contains(0x02)));
    let mut i: usize = 0;
    assert(interface_classes@.skip(0) =~= interface_classes@);
    while i < interface_classes.len()
        invariant
            i <= interface_classes@.len(),
            device_type(device_class, interface_classes@) == type_of_interfaces(
                interface_classes@.skip(i as int),
            ),
        decreases interface_classes.len() - i,
    {
        assert(interface_classes@.skip(i as int).skip(1) =~= interface_classes@.skip(i + 1));
        match interface_classes[i] {
            0x03 => {
                return DEVICE_TYPE_HID;
            },
            0x08 => {
                return DEVICE_TYPE_STORAGE;
            },
            0x02 | 0x0a => {
                return DEVICE_TYPE_SERIAL;
            },
            0x01 => {
                return DEVICE_TYPE_AUDIO;
            },
            0xe0 => {
                return DEVICE_TYPE_NETWORK;
            },
            _ => {},
        }
        i = i + 1;
    }
    DEVICE_TYPE_HID
}

/// The calls of the driver: each has its own selector, and its numbers in the
/// order in which the driver takes them.
pub proof fn law_driver_calls(
    d: MacOSVhciDriver,
    device_id: u32,
    kind: u32,
    endpoint: u32,
    data: &[u8],
    create: DriverCall,
    destroy: DriverCall,
    submit: DriverCall,
    configure: DriverCall,
    poll: DriverCall,
    count: DriverCall,
)
    requires
        call_ensures(MacOSVhciDriver::create_device, (&d, kind, device_id), create),
        call_ensures(MacOSVhciDriver::destroy_device, (&d, device_id), destroy),
        call_ensures(MacOSVhciDriver::submit_input, (&d, device_id, endpoint, data), submit),
        call_ensures(MacOSVhciDriver::configure_device, (&d, device_id, kind, data), configure),
        call_ensures(MacOSVhciDriver::poll_pending_output, (&d, device_id), poll),
        call_ensures(MacOSVhciDriver::count_devices, (&d,), count),
        data@.len() <= u64::MAX,
    ensures
        create.selector == 0,
        create.scalars@.len() == 2,
        create.scalars@[0] == kind,
        create.scalars@[1] == device_id,
        create.data@.len() == 0,
        destroy.selector == 1,
        destroy.scalars@.len() == 1,
        destroy.scalars@[0] == device_id,
        destroy.data@.len() == 0,
        submit.selector == 2,
        submit.scalars@.len() == 3,
        submit.scalars@[0] == device_id,
        submit.scalars@[1] == endpoint,
        submit.scalars@[2] == data@.len(),
        submit.data@ == data@,
        poll.selector == 3,
        poll.scalars@.len() == 1,
        poll.scalars@[0] == device_id,
        poll.data@.len() == 0,
        count.selector == 4,
        count.scalars@.len() == 0,
        count.data@.len() == 0,
        configure.selector == 5,
        configure.scalars@.len() == 2,
        configure.scalars@[0] == device_id,
        configure.scalars@[1] == kind,
        configure.data@ == data@,
{
}

/// A request is completed with its device, its own number and its status, as a
/// number of 32 bits, and its data.
pub proof fn law_completion_call(
    d: MacOSVhciDriver,
    device_id: u32,
    request_id: u32,
    status: i32,
    data: &[u8],
    c: DriverCall,
)
    requires
        call_ensures(
            MacOSVhciDriver::complete_request,
            (&d, device_id, request_id, status, data),
            c,
        ),
    ensures
        c.selector == 10,
        c.scalars@.len() == 3,
        c.scalars@[0] == device_id,
        c.scalars@[1] == request_id,
        status >= 0 ==> c.scalars@[2] == status,
        status < 0 ==> c.scalars@[2] == status + 0x1_0000_0000,
        c.data@ == data@,
{
    assert(status >= 0 ==> (status as u32) as int == status) by (bit_vector);
    assert(status < 0 ==> (status as u32) as int == status + 0x1_0000_0000) by (bit_vector);
}

/// The number of devices comes only from a call that succeeded, and is the
/// driver's number where this has 32 bits.
pub proof fn law_count_taken(
    d: MacOSVhciDriver,
    kr: kern_return_t,
    output: u64,
    r: Result<u32, ClientError>,
)
    requires
        call_ensures(MacOSVhciDriver::device_count, (&d, kr, output), r),
    ensures
        r is Ok <==> kr == 0,
        r matches Ok(n) ==> output <= u32::MAX ==> n == output,
        r matches Err(ClientError::IOKit { code, .. }) ==> code == kr,
{
    assert(output <= 0xffff_ffff ==> (output as u32) as u64 == output) by (bit_vector);
}

/// A pending request stands behind the driver's header of 24 bytes: the device,
/// the endpoint and the length of the data come first, the number of the
/// request at the seventeenth byte. It is there exactly where the header is, and
/// all of its data.
pub proof fn law_pending_taken(
    d: MacOSVhciDriver,
    kr: kern_return_t,
    output: &[u8],
    r: Result<Option<PendingRequest>, ClientError>,
)
    requires
        call_ensures(MacOSVhciDriver::get_pending_output, (&d, kr, output), r),
    ensures
        kr != 0 ==> (r matches Err(ClientError::IOKit { code, .. }) && code == kr),
        kr == 0 && output@.len() == 0 <==> r matches Ok(None),
        r matches Ok(Some(_)) <==> kr == 0 && output@.len() >= 24 && 24 + le32_at(output@, 8)
            <= output@.len(),
        r matches Ok(Some(p)) ==> {
            &&& p.device_id == le32_at(output@, 0)
            &&& p.endpoint == le32_at(output@, 4)
            &&& p.data@.len() == le32_at(output@, 8)
            &&& p.request_id == le32_at(output@, 16)
            &&& forall|i: int| 0 <= i < p.data@.len() ==> #[trigger] p.data@[i] == output@[24 + i]
        },
{
}

/// The result of a call is an error, with the code, for every code but zero.
pub proof fn law_call_results(kr: kern_return_t, operation: &str, r: Result<(), ClientError>)
    requires
        call_ensures(check_kr, (kr, operation), r),
    ensures
        r is Ok <==> kr == 0,
        r matches Err(ClientError::IOKit { code, .. }) ==> code == kr,
{
}

/// The class of a device decides where it is known. A composite device with a
/// communication interface is a network device. Else the first interface of a
/// known class decides, and without one the device is an input device.
pub proof fn law_device_types(device_class: u8, interface_classes: &[u8], t: u32)
    requires
        call_ensures(device_type_from_usb, (device_class, interface_classes), t),
    ensures
        device_class == 3 ==> t == 1,
        device_class == 8 ==> t == 2,
        device_class == 2 || device_class == 10 ==> t == 3,
        device_class == 1 ==> t == 5,
        device_class == 0xef && interface_classes@.contains(2) ==> t == 4,
        ({
            let decided = set![1u8, 2u8, 3u8, 8u8, 10u8].contains(device_class) || (device_class
                == 0xef && interface_classes@.contains(2));
            let known = set![1u8, 2u8, 3u8, 8u8, 10u8, 0xe0u8];
            &&& !decided ==> forall|i: int|
                #![trigger interface_classes@[i]]
                0 <= i < interface_classes@.len() && known.contains(interface_classes@[i]) && (
                forall|j: int| 0 <= j < i ==> !known.contains(#[trigger] interface_classes@[j]))
                    ==> t == match interface_classes@[i] {
                    3u8 => 1u32,
                    8u8 => 2u32,
                    2u8 => 3u32,
                    10u8 => 3u32,
                    1u8 => 5u32,
                    _ => 4u32,
                }
            &&& !decided && (forall|j: int|
                0 <= j < interface_classes@.len() ==> !known.contains(
                    #[trigger] interface_classes@[j],
                )) ==> t == 1
        }),
{
    let known = set![1u8, 2u8, 3u8, 8u8, 10u8, 0xe0u8];
    let s = interface_classes@;
    assert forall|i: int|
        #![trigger s[i]]
        0 <= i < s.len() && known.contains(s[i]) && (forall|j: int|
            0 <= j < i ==> !known.contains(#[trigger] s[j])) implies type_of_interfaces(s)
        == type_of_interface_class(s[i])->Some_0 by {
        lemma_first_known(s, i);
    }
    if forall|j: int| 0 <= j < s.len() ==> !known.contains(#[trigger] s[j]) {
        lemma_first_known(s, s.len() as int);
    }
}

proof fn lemma_first_known(s: Seq<u8>, i: int)
    requires
        0 <= i <= s.len(),
        forall|j: int|
            0 <= j < i ==> type_of_interface_class(#[trigger] s[j]) is None,
        i < s.len() ==> type_of_interface_class(s[i]) is Some,
    ensures
        i < s.len() ==> type_of_interfaces(s) == type_of_interface_class(s[i])->Some_0,
        i == s.len() ==> type_of_interfaces(s) == DEVICE_TYPE_HID,
    decreases s.len(),
{
    if i > 0 {
        assert(type_of_interface_class(s[0]) is None);
        assert forall|j: int| 0 <= j < i - 1 implies type_of_interface_class(
            #[trigger] s.skip(1)[j],
        ) is None by {
            assert(s.skip(1)[j] == s[j + 1]);
        }
        lemma_first_known(s.skip(1), i - 1);
    }
}

} // verus!
