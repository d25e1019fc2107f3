use traffic_light::{
    AcquireStep, Acquisition, Color, DeviceError, InitializedGlobalDevice, ReleaseError,
    ReleaseStep, Reply, Request, State,
};

/// A transport that answers from a script and keeps a record of what it was
/// asked.
struct Simulated {
    open: Reply,
    kernel_driver: Reply,
    detach: Reply,
    claim: Reply,
    write: Reply,
    release: Reply,
    attach: Reply,
    asked: Vec<Request>,
}

impl Simulated {
    fn new(kernel_driver: Reply) -> Simulated {
        Simulated {
            open: Reply::Done,
            kernel_driver,
            detach: Reply::Done,
            claim: Reply::Done,
            write: Reply::Written(3),
            release: Reply::Done,
            attach: Reply::Done,
            asked: Vec::new(),
        }
    }

    fn perform(&mut self, request: Request) -> Reply {
        self.asked.push(request);
        match request {
            Request::Open => self.open,
            Request::KernelDriverActive { .. } => self.kernel_driver,
            Request::DetachKernelDriver { .. } => self.detach,
            Request::ClaimInterface { .. } => self.claim,
            Request::WriteInterrupt { .. } => self.write,
            Request::ReleaseInterface { .. } => self.release,
            Request::AttachKernelDriver { .. } => self.attach,
        }
    }

    fn count(&self, wanted: Request) -> usize {
        self.asked.iter().filter(|request| **request == wanted).count()
    }

    fn place(&self, wanted: Request) -> Option<usize> {
        self.asked.iter().position(|request| *request == wanted)
    }
}

const OPEN: Request = Request::Open;
const PROBE: Request = Request::KernelDriverActive { interface: 0 };
const DETACH: Request = Request::DetachKernelDriver { interface: 0 };
const CLAIM: Request = Request::ClaimInterface { interface: 0 };
const RELEASE: Request = Request::ReleaseInterface { interface: 0 };
const ATTACH: Request = Request::AttachKernelDriver { interface: 0 };

fn acquire(transport: &mut Simulated) -> Result<InitializedGlobalDevice, DeviceError> {
    let mut acquisition: Acquisition = InitializedGlobalDevice::create();
    loop {
        let reply = transport.perform(acquisition.request());
        match acquisition.advance(reply) {
            AcquireStep::Pending(next) => acquisition = next,
            AcquireStep::Acquired(device) => return Ok(device),
            AcquireStep::Failed(error) => return Err(error),
        }
    }
}

fn set_light(
    transport: &mut Simulated,
    device: &InitializedGlobalDevice,
    color: Color,
    state: State,
) -> Result<(), DeviceError> {
    let reply = transport.perform(device.set_light(color, state));
    device.light_set(reply)
}

fn release(transport: &mut Simulated, device: InitializedGlobalDevice) -> Result<(), ReleaseError> {
    let mut release = device.release();
    loop {
        let reply = transport.perform(release.request());
        match release.advance(reply) {
            ReleaseStep::Pending(next) => release = next,
            ReleaseStep::Released => return Ok(()),
            ReleaseStep::Aborted(error) => return Err(error),
        }
    }
}

#[test]
fn requests_name_the_interface_and_the_endpoint() {
    assert_eq!(traffic_light::transport::INTERFACE, 0x00);
    assert_eq!(traffic_light::transport::CTRL_ENDPOINT, 0x02);
    assert_eq!(traffic_light::transport::TIMEOUT_SECS, 1000);
}

#[test]
fn acquisition_starts_by_opening_the_device() {
    assert_eq!(InitializedGlobalDevice::create().request(), OPEN);
}

#[test]
fn active_kernel_driver_is_detached_before_the_claim() {
    let mut transport = Simulated::new(Reply::KernelDriver(true));
    let device = acquire(&mut transport);
    assert!(device.is_ok());
    assert_eq!(transport.asked, vec![OPEN, PROBE, DETACH, CLAIM]);
    assert!(transport.place(DETACH) < transport.place(CLAIM));
}

#[test]
fn detached_kernel_driver_is_attached_after_the_release() {
    let mut transport = Simulated::new(Reply::KernelDriver(true));
    let device = acquire(&mut transport).unwrap();
    transport.asked.clear();
    assert_eq!(release(&mut transport, device), Ok(()));
    assert_eq!(transport.asked, vec![RELEASE, ATTACH]);
}

#[test]
fn no_kernel_driver_means_no_detach_and_no_attach() {
    let mut transport = Simulated::new(Reply::KernelDriver(false));
    let device = acquire(&mut transport).unwrap();
    assert_eq!(transport.asked, vec![OPEN, PROBE, CLAIM]);
    assert_eq!(release(&mut transport, device), Ok(()));
    assert_eq!(transport.asked, vec![OPEN, PROBE, CLAIM, RELEASE]);
    assert_eq!(transport.count(DETACH), 0);
    assert_eq!(transport.count(ATTACH), 0);
}

#[test]
fn failed_question_about_the_kernel_driver_counts_as_no_driver() {
    let mut transport = Simulated::new(Reply::Failed(rusb::Error::NotSupported));
    let device = acquire(&mut transport).unwrap();
    assert_eq!(transport.asked, vec![OPEN, PROBE, CLAIM]);
    assert_eq!(release(&mut transport, device), Ok(()));
    assert_eq!(transport.asked, vec![OPEN, PROBE, CLAIM, RELEASE]);
}

#[test]
fn only_the_answer_yes_leads_to_a_detach() {
    for reply in [Reply::Done, Reply::Written(1), Reply::KernelDriver(false)] {
        let probing = match InitializedGlobalDevice::create().advance(Reply::Done) {
            AcquireStep::Pending(next) => next,
            other => panic!("not pending: {:?}", other),
        };
        assert_eq!(probing.request(), PROBE);
        match probing.advance(reply) {
            AcquireStep::Pending(next) => assert_eq!(next.request(), CLAIM),
            other => panic!("not pending: {:?}", other),
        }
    }
}

#[test]
fn failure_to_open_ends_the_acquisition() {
    let mut transport = Simulated::new(Reply::KernelDriver(true));
    transport.open = Reply::Failed(rusb::Error::Access);
    assert_eq!(acquire(&mut transport), Err(DeviceError::Transport(rusb::Error::Access)));
    assert_eq!(transport.asked, vec![OPEN]);
}

#[test]
fn failure_to_detach_ends_the_acquisition() {
    let mut transport = Simulated::new(Reply::KernelDriver(true));
    transport.detach = Reply::Failed(rusb::Error::NotFound);
    assert_eq!(acquire(&mut transport), Err(DeviceError::Transport(rusb::Error::NotFound)));
    assert_eq!(transport.asked, vec![OPEN, PROBE, DETACH]);
}

#[test]
fn failure_to_claim_ends_the_acquisition() {
    let mut transport = Simulated::new(Reply::KernelDriver(false));
    transport.claim = Reply::Failed(rusb::Error::Busy);
    assert_eq!(acquire(&mut transport), Err(DeviceError::Transport(rusb::Error::Busy)));
    assert_eq!(transport.asked, vec![OPEN, PROBE, CLAIM]);
}

#[test]
fn failure_to_claim_after_a_detach_attempts_no_cleanup() {
    let mut transport = Simulated::new(Reply::KernelDriver(true));
    transport.claim = Reply::Failed(rusb::Error::Busy);
    assert_eq!(acquire(&mut transport), Err(DeviceError::Transport(rusb::Error::Busy)));
    assert_eq!(transport.asked, vec![OPEN, PROBE, DETACH, CLAIM]);
    assert_eq!(transport.count(RELEASE), 0);
    assert_eq!(transport.count(ATTACH), 0);
}

#[test]
fn every_transport_error_is_passed_on_unchanged() {
    let failures = [
        rusb::Error::Io,
        rusb::Error::InvalidParam,
        rusb::Error::Access,
        rusb::Error::NoDevice,
        rusb::Error::NotFound,
        rusb::Error::Busy,
        rusb::Error::Timeout,
        rusb::Error::Overflow,
        rusb::Error::Pipe,
        rusb::Error::Interrupted,
        rusb::Error::NoMem,
        rusb::Error::NotSupported,
        rusb::Error::BadDescriptor,
        rusb::Error::Other,
    ];
    for failure in failures {
        let mut transport = Simulated::new(Reply::KernelDriver(false));
        transport.claim = Reply::Failed(failure);
        assert_eq!(acquire(&mut transport), Err(DeviceError::Transport(failure)));

        let mut transport = Simulated::new(Reply::KernelDriver(false));
        transport.write = Reply::Failed(failure);
        let device = acquire(&mut transport).unwrap();
        assert_eq!(
            set_light(&mut transport, &device, Color::Red, State::On),
            Err(DeviceError::Transport(failure))
        );
    }
}

#[test]
fn set_light_sends_the_command_to_the_control_endpoint() {
    let mut transport = Simulated::new(Reply::KernelDriver(false));
    let device = acquire(&mut transport).unwrap();
    transport.asked.clear();
    assert_eq!(set_light(&mut transport, &device, Color::Green, State::Off), Ok(()));
    assert_eq!(
        transport.asked,
        vec![Request::WriteInterrupt {
            endpoint: 0x02,
            payload: [0x00, 0x12, 0x00],
            timeout_secs: 1000
        }]
    );
}

#[test]
fn set_light_request_for_every_lamp() {
    let mut transport = Simulated::new(Reply::KernelDriver(true));
    let device = acquire(&mut transport).unwrap();
    let expected = [
        (Color::Red, State::Off, [0x00, 0x10, 0x00]),
        (Color::Red, State::On, [0x00, 0x10, 0x01]),
        (Color::Yellow, State::Off, [0x00, 0x11, 0x00]),
        (Color::Yellow, State::On, [0x00, 0x11, 0x01]),
        (Color::Green, State::Off, [0x00, 0x12, 0x00]),
        (Color::Green, State::On, [0x00, 0x12, 0x01]),
    ];
    for (color, state, payload) in expected {
        assert_eq!(
            device.set_light(color, state),
            Request::WriteInterrupt { endpoint: 0x02, payload, timeout_secs: 1000 }
        );
    }
}

#[test]
fn any_reply_but_a_failure_means_the_light_is_set() {
    let mut transport = Simulated::new(Reply::KernelDriver(false));
    let device = acquire(&mut transport).unwrap();
    assert_eq!(device.light_set(Reply::Written(3)), Ok(()));
    assert_eq!(device.light_set(Reply::Written(0)), Ok(()));
    assert_eq!(device.light_set(Reply::Done), Ok(()));
    assert_eq!(device.light_set(Reply::KernelDriver(false)), Ok(()));
    assert_eq!(
        device.light_set(Reply::Failed(rusb::Error::Timeout)),
        Err(DeviceError::Transport(rusb::Error::Timeout))
    );
}

#[test]
fn failed_transfer_surfaces_and_the_release_is_unaffected() {
    let mut transport = Simulated::new(Reply::KernelDriver(true));
    transport.write = Reply::Failed(rusb::Error::Pipe);
    let device = acquire(&mut transport).unwrap();
    assert_eq!(
        set_light(&mut transport, &device, Color::Yellow, State::On),
        Err(DeviceError::Transport(rusb::Error::Pipe))
    );
    assert_eq!(release(&mut transport, device), Ok(()));
    assert_eq!(
        transport.asked,
        vec![
            OPEN,
            PROBE,
            DETACH,
            CLAIM,
            Request::WriteInterrupt {
                endpoint: 0x02,
                payload: [0x00, 0x11, 0x01],
                timeout_secs: 1000
            },
            RELEASE,
            ATTACH,
        ]
    );
    assert_eq!(transport.count(RELEASE), 1);
}

#[test]
fn interface_is_released_exactly_once() {
    for kernel_driver in [true, false] {
        for write in [Reply::Written(3), Reply::Failed(rusb::Error::Io)] {
            for transfers in 0..4 {
                let mut transport = Simulated::new(Reply::KernelDriver(kernel_driver));
                transport.write = write;
                let device = acquire(&mut transport).unwrap();
                for _ in 0..transfers {
                    let _ = set_light(&mut transport, &device, Color::Red, State::On);
                }
                assert_eq!(transport.count(RELEASE), 0);
                assert_eq!(release(&mut transport, device), Ok(()));
                assert_eq!(transport.count(RELEASE), 1);
                assert_eq!(transport.count(ATTACH), usize::from(kernel_driver));
                assert_eq!(transport.count(DETACH), usize::from(kernel_driver));
                assert_eq!(transport.count(CLAIM), 1);
            }
        }
    }
}

#[test]
fn failure_to_release_aborts_before_the_attach() {
    let mut transport = Simulated::new(Reply::KernelDriver(true));
    transport.release = Reply::Failed(rusb::Error::NoDevice);
    let device = acquire(&mut transport).unwrap();
    transport.asked.clear();
    assert_eq!(
        release(&mut transport, device),
        Err(ReleaseError::Interface(rusb::Error::NoDevice))
    );
    assert_eq!(transport.asked, vec![RELEASE]);
}

#[test]
fn failure_to_attach_aborts_the_release() {
    let mut transport = Simulated::new(Reply::KernelDriver(true));
    transport.attach = Reply::Failed(rusb::Error::Busy);
    let device = acquire(&mut transport).unwrap();
    transport.asked.clear();
    assert_eq!(
        release(&mut transport, device),
        Err(ReleaseError::KernelDriver(rusb::Error::Busy))
    );
    assert_eq!(transport.asked, vec![RELEASE, ATTACH]);
}

#[test]
fn release_starts_by_giving_the_interface_back() {
    let mut transport = Simulated::new(Reply::KernelDriver(false));
    let device = acquire(&mut transport).unwrap();
    let release = device.release();
    assert_eq!(release.request(), RELEASE);
    assert_eq!(release.advance(Reply::Done), ReleaseStep::Released);
}
