use tinyboot::coordinator::{offer, Coordinator, Reaction, SelectEntryError};
use tinyboot::message::{device_of, Device, LinuxBootEntry, Request, Response, ServerError};
use tinyboot::session::{ClientSession, Delivery};
use tinyboot::supervisor::{
    after_load, after_selection, next_action, KexecRequest, LoadFailure, PrepareBootError,
    SupervisorAction,
};

fn entry(display: &str, default: bool) -> LinuxBootEntry {
    LinuxBootEntry {
        default,
        display: display.to_string(),
        linux: format!("/mnt/{}/vmlinuz", display),
        initrd: Some(format!("/mnt/{}/initrd", display)),
        cmdline: Some("quiet".to_string()),
    }
}

fn device(name: &str, entries: Vec<LinuxBootEntry>, timeout: u64, removable: bool) -> Device {
    Device {
        name: name.to_string(),
        mountpoint: format!("/mnt/{}", name),
        boot_entries: entries,
        timeout,
        removable,
    }
}

fn nothing() -> Reaction {
    Reaction {
        broadcast: None,
        outcome: None,
    }
}

fn default_after(devices: Vec<Device>) -> Option<LinuxBootEntry> {
    let mut c = Coordinator::new();
    let mut now = 0;
    for d in devices {
        now += 7;
        c.on_device(d, now);
    }
    match c.on_tick(u64::MAX).outcome {
        Some(Ok(entry)) => Some(entry),
        Some(Err(SelectEntryError::NoDefaultEntry)) | None => None,
        other => panic!("{:?}", other),
    }
}

#[test]
fn timeout_default() {
    let mut c = Coordinator::new();
    let d = device("sda1", vec![entry("B", false), entry("A", true)], 3000, false);
    let announced = c.on_device(device("sda1", vec![entry("B", false), entry("A", true)], 3000, false), 1000);
    assert_eq!(
        announced,
        Reaction {
            broadcast: Some(Response::NewDevice(d)),
            outcome: None,
        }
    );
    let mut left = Vec::new();
    let mut now = 1500;
    let chosen = loop {
        let r = c.on_tick(now);
        if let Some(Response::TimeLeft(Some(d))) = r.broadcast {
            left.push(d);
        } else {
            assert_eq!(r.broadcast, None);
        }
        if let Some(outcome) = r.outcome {
            break outcome;
        }
        now += 1000;
    };
    assert_eq!(chosen, Ok(entry("A", true)));
    assert_eq!(left, vec![2500, 1500, 500]);
    assert_eq!(now, 4500);
}

#[test]
fn tick_at_the_timeout_ends_the_run_without_time_left() {
    let mut c = Coordinator::new();
    c.on_device(device("sda1", vec![entry("A", false)], 3000, false), 1000);
    assert_eq!(
        c.on_tick(3999),
        Reaction {
            broadcast: Some(Response::TimeLeft(Some(1))),
            outcome: None,
        }
    );
    assert_eq!(
        c.on_tick(4000),
        Reaction {
            broadcast: None,
            outcome: Some(Ok(entry("A", false))),
        }
    );
    assert_eq!(
        c.on_tick(500),
        Reaction {
            broadcast: Some(Response::TimeLeft(Some(3000))),
            outcome: None,
        }
    );
}

#[test]
fn countdown_starts_with_the_first_device() {
    let mut c = Coordinator::new();
    assert_eq!(c.on_tick(0), nothing());
    assert_eq!(c.on_tick(1_000_000), nothing());
    c.on_device(device("usb", vec![], 2000, true), 1_000_000);
    assert_eq!(
        c.on_tick(1_000_500),
        Reaction {
            broadcast: Some(Response::TimeLeft(Some(1500))),
            outcome: None,
        }
    );
    assert_eq!(
        c.on_tick(1_002_000),
        Reaction {
            broadcast: None,
            outcome: Some(Err(SelectEntryError::NoDefaultEntry)),
        }
    );
}

#[test]
fn timeout_is_the_longest_of_all_devices() {
    let mut c = Coordinator::new();
    c.on_device(device("a", vec![entry("A", true)], 3000, false), 0);
    c.on_device(device("b", vec![entry("B", true)], 8000, true), 100);
    c.on_device(device("c", vec![entry("C", true)], 1000, true), 200);
    assert_eq!(c.on_tick(3000).broadcast, Some(Response::TimeLeft(Some(5000))));
    assert_eq!(c.on_tick(7999).broadcast, Some(Response::TimeLeft(Some(1))));
    assert_eq!(c.on_tick(8000).outcome, Some(Ok(entry("A", true))));
}

#[test]
fn default_entry_policy() {
    assert_eq!(offer(&device("d", vec![], 0, false)), None);
    assert_eq!(
        offer(&device("d", vec![entry("A", false), entry("B", false)], 0, false)),
        Some(entry("A", false))
    );
    assert_eq!(
        offer(&device("d", vec![entry("A", false), entry("B", true), entry("C", true)], 0, false)),
        Some(entry("B", true))
    );
    let usb = || device("usb", vec![entry("U", true)], 0, true);
    let usb2 = || device("usb2", vec![entry("V", true)], 0, true);
    let disk = || device("disk", vec![entry("D", false)], 0, false);
    let disk2 = || device("disk2", vec![entry("E", false)], 0, false);
    assert_eq!(default_after(vec![]), None);
    assert_eq!(default_after(vec![usb(), usb2()]), Some(entry("U", true)));
    assert_eq!(default_after(vec![usb2(), usb()]), Some(entry("V", true)));
    assert_eq!(default_after(vec![device("empty", vec![], 0, true), usb2()]), Some(entry("V", true)));
    assert_eq!(default_after(vec![disk(), disk2(), usb()]), Some(entry("D", false)));
    assert_eq!(default_after(vec![disk2(), disk()]), Some(entry("E", false)));
    assert_eq!(default_after(vec![device("empty", vec![], 0, false), usb()]), None);
    assert_eq!(default_after(vec![usb(), disk()]), Some(entry("D", false)));
    assert_eq!(default_after(vec![usb(), disk(), disk2()]), Some(entry("D", false)));
    assert_eq!(
        default_after(vec![usb(), device("empty", vec![], 0, false)]),
        Some(entry("U", true))
    );
    assert_eq!(
        default_after(vec![usb(), device("empty", vec![], 0, false), disk()]),
        Some(entry("U", true))
    );
    assert_eq!(
        default_after(vec![usb(), device("empty", vec![], 0, true), usb2()]),
        Some(entry("U", true))
    );
}

#[test]
fn device_is_made_of_what_its_boot_loader_offers() {
    assert_eq!(
        device_of("/dev/sda1", "/mnt/dev-sda1", vec![entry("A", true)], 3, false),
        Device {
            name: "/dev/sda1".to_string(),
            mountpoint: "/mnt/dev-sda1".to_string(),
            boot_entries: vec![entry("A", true)],
            timeout: 3000,
            removable: false,
        }
    );
    assert_eq!(device_of("d", "/m", vec![], 0, true).timeout, 0);
    assert_eq!(device_of("d", "/m", vec![], u64::MAX / 1000, true).timeout, u64::MAX / 1000 * 1000);
    assert_eq!(device_of("d", "/m", vec![], u64::MAX / 1000 + 1, true).timeout, u64::MAX);
    assert_eq!(device_of("d", "/m", vec![], u64::MAX, true).timeout, u64::MAX);
}

#[test]
fn default_does_not_depend_on_arrival_order() {
    let devices = || {
        vec![
            device("usb", vec![entry("U", true)], 0, true),
            device("disk", vec![entry("D1", false), entry("D2", true)], 0, false),
            device("sd", vec![entry("S", true)], 0, true),
        ]
    };
    let orders: [[usize; 3]; 6] = [[0, 1, 2], [0, 2, 1], [1, 0, 2], [1, 2, 0], [2, 0, 1], [2, 1, 0]];
    for order in orders {
        let mut pool: Vec<Option<Device>> = devices().into_iter().map(Some).collect();
        let arrived: Vec<Device> = order.iter().map(|&i| pool[i].take().unwrap()).collect();
        assert_eq!(default_after(arrived), Some(entry("D2", true)), "{:?}", order);
    }
}

#[test]
fn user_presence_stops_the_countdown() {
    let mut c = Coordinator::new();
    c.on_device(device("a", vec![entry("A", true)], 3000, false), 0);
    assert_eq!(c.on_tick(1000).broadcast, Some(Response::TimeLeft(Some(2000))));
    assert_eq!(
        c.on_request(Request::UserIsPresent),
        Reaction {
            broadcast: Some(Response::TimeLeft(None)),
            outcome: None,
        }
    );
    assert_eq!(c.on_tick(2000), nothing());
    c.on_device(device("b", vec![entry("B", true)], 9000, false), 2500);
    assert_eq!(c.on_request(Request::StopStreaming), nothing());
    assert_eq!(c.on_tick(3000), nothing());
    assert_eq!(c.on_tick(u64::MAX), nothing());
    assert_eq!(
        c.on_request(Request::Boot(entry("B", true))),
        Reaction {
            broadcast: None,
            outcome: Some(Ok(entry("B", true))),
        }
    );
}

#[test]
fn requests_to_the_coordinator() {
    let mut c = Coordinator::new();
    assert_eq!(c.on_request(Request::Ping), nothing());
    assert_eq!(c.on_request(Request::StartStreaming), nothing());
    assert_eq!(
        c.on_request(Request::ListBlockDevices).broadcast,
        Some(Response::ListBlockDevices(vec![]))
    );
    c.on_device(device("a", vec![entry("A", true)], 3000, false), 0);
    c.on_device(device("b", vec![], 1000, true), 5);
    assert_eq!(
        c.on_request(Request::ListBlockDevices),
        Reaction {
            broadcast: Some(Response::ListBlockDevices(vec![
                device("a", vec![entry("A", true)], 3000, false),
                device("b", vec![], 1000, true),
            ])),
            outcome: None,
        }
    );
    assert_eq!(
        c.on_request(Request::Poweroff),
        Reaction {
            broadcast: Some(Response::ServerDone),
            outcome: Some(Err(SelectEntryError::Poweroff)),
        }
    );
}

#[test]
fn reboot_request() {
    let mut c = Coordinator::new();
    c.on_device(device("a", vec![entry("A", true)], 3000, false), 0);
    let reaction = c.on_request(Request::Reboot);
    assert_eq!(reaction.broadcast, Some(Response::ServerDone));
    assert_eq!(reaction.outcome, Some(Err(SelectEntryError::Reboot)));
    let prepared = after_selection(reaction.outcome.unwrap());
    assert_eq!(prepared, Err(PrepareBootError::SelectEntry(SelectEntryError::Reboot)));
    let result = prepared.map(|_| ());
    assert_eq!(next_action(&result), SupervisorAction::Reboot);
}

#[test]
fn supervisor_actions() {
    assert_eq!(next_action(&Ok(())), SupervisorAction::Kexec);
    assert_eq!(
        next_action(&Err(PrepareBootError::SelectEntry(SelectEntryError::Poweroff))),
        SupervisorAction::Poweroff
    );
    assert_eq!(
        next_action(&Err(PrepareBootError::SelectEntry(SelectEntryError::NoDefaultEntry))),
        SupervisorAction::Shell
    );
    assert_eq!(
        next_action(&Err(PrepareBootError::SelectEntry(SelectEntryError::Io("bind".to_string())))),
        SupervisorAction::Shell
    );
    assert_eq!(
        next_action(&Err(PrepareBootError::Io("kexec".to_string()))),
        SupervisorAction::Shell
    );
}

#[test]
fn loading_the_chosen_entry() {
    assert_eq!(
        after_selection(Ok(entry("A", true))),
        Ok(KexecRequest {
            linux: "/mnt/A/vmlinuz".to_string(),
            initrd: Some("/mnt/A/initrd".to_string()),
            cmdline: "quiet".to_string(),
        })
    );
    let bare = LinuxBootEntry {
        default: false,
        display: "bare".to_string(),
        linux: "/k".to_string(),
        initrd: None,
        cmdline: None,
    };
    assert_eq!(
        after_selection(Ok(bare)),
        Ok(KexecRequest {
            linux: "/k".to_string(),
            initrd: None,
            cmdline: String::new(),
        })
    );
    assert_eq!(after_load(Ok(())), (Response::ServerDone, Ok(())));
    assert_eq!(
        after_load(Err(LoadFailure {
            permission_denied: true,
            message: "denied".to_string(),
        })),
        (
            Response::ServerError(ServerError::ValidationFailed),
            Err(PrepareBootError::Io("denied".to_string()))
        )
    );
    assert_eq!(
        after_load(Err(LoadFailure {
            permission_denied: false,
            message: "enoent".to_string(),
        })),
        (
            Response::ServerError(ServerError::Unknown),
            Err(PrepareBootError::Io("enoent".to_string()))
        )
    );
}

#[test]
fn client_session_queues_until_streaming() {
    let mut s = ClientSession::new();
    let new_device = || Response::NewDevice(device("a", vec![entry("A", true)], 3000, false));
    assert_eq!(
        s.on_request(Request::Ping),
        Delivery {
            send: vec![Response::Pong],
            forward: None,
        }
    );
    assert_eq!(s.on_response(new_device()), None);
    assert_eq!(s.on_response(Response::TimeLeft(Some(2000))), None);
    assert_eq!(
        s.on_response(Response::ListBlockDevices(vec![])),
        Some(Response::ListBlockDevices(vec![]))
    );
    assert_eq!(s.on_response(Response::TimeLeft(None)), None);
    assert_eq!(
        s.on_response(Response::ServerError(ServerError::Unknown)),
        Some(Response::ServerError(ServerError::Unknown))
    );
    assert_eq!(
        s.on_request(Request::StartStreaming),
        Delivery {
            send: vec![new_device(), Response::TimeLeft(Some(2000)), Response::TimeLeft(None)],
            forward: None,
        }
    );
    assert_eq!(s.on_response(Response::TimeLeft(Some(1000))), Some(Response::TimeLeft(Some(1000))));
    assert_eq!(s.on_response(new_device()), Some(new_device()));
    assert_eq!(
        s.on_request(Request::StartStreaming),
        Delivery {
            send: vec![],
            forward: None,
        }
    );
    assert_eq!(
        s.on_request(Request::StopStreaming),
        Delivery {
            send: vec![],
            forward: None,
        }
    );
    assert_eq!(s.on_response(Response::TimeLeft(Some(500))), None);
    assert_eq!(s.on_response(Response::ServerDone), Some(Response::ServerDone));
    assert_eq!(s.on_response(Response::Pong), Some(Response::Pong));
}

#[test]
fn client_session_forwards_the_rest() {
    let mut s = ClientSession::new();
    for request in [
        || Request::ListBlockDevices,
        || Request::UserIsPresent,
        || Request::Reboot,
        || Request::Poweroff,
    ] {
        assert_eq!(
            s.on_request(request()),
            Delivery {
                send: vec![],
                forward: Some(request()),
            }
        );
    }
    assert_eq!(
        s.on_request(Request::Boot(entry("A", true))),
        Delivery {
            send: vec![],
            forward: Some(Request::Boot(entry("A", true))),
        }
    );
}
