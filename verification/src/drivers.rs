//! Hardware detection and driver suggestion: decodes the line-per-device
//! output of the system's PCI and USB enumeration tools, which the caller
//! runs, and spots proprietary-driver candidates.

use vstd::prelude::*;
use crate::models::{DeviceModel, DeviceType, DriverInfo, DriverType, HardwareDevice};
use crate::text::{contains_ci, spec_lines, contains_ci_str, split_lines};

verus! {

/// One device per output line, carrying the line as both identifier and
/// display name.
pub open spec fn device_models(ls: Seq<Seq<char>>, dt: DeviceType) -> Seq<DeviceModel> {
    Seq::new(ls.len(), |i: int| DeviceModel { id: ls[i], name: ls[i], device_type: dt })
}

/// Everything the two enumeration tools reported; a tool that could not be
/// run contributes nothing.
pub open spec fn detected_devices(p: Option<&str>, u: Option<&str>) -> Seq<DeviceModel> {
    (match p {
        Some(s) => device_models(spec_lines(s@), DeviceType::Pci),
        None => Seq::empty(),
    }) + (match u {
        Some(s) => device_models(spec_lines(s@), DeviceType::Usb),
        None => Seq::empty(),
    })
}

fn parse_device_lines(output: &str, pci: bool) -> (r: Vec<HardwareDevice>)
    ensures
        r.deep_view() == device_models(
            spec_lines(output@),
            if pci {
                DeviceType::Pci
            } else {
                DeviceType::Usb
            },
        ),
{
    let dt = if pci {
        DeviceType::Pci
    } else {
        DeviceType::Usb
    };
    let lines = split_lines(output);
    let ghost ls = lines.deep_view();
    let mut r: Vec<HardwareDevice> = Vec::new();
    let mut k: usize = 0;
    while k < lines.len()
        invariant
            k <= lines@.len(),
            ls == lines.deep_view(),
            ls == spec_lines(output@),
            dt == (if pci {
                DeviceType::Pci
            } else {
                DeviceType::Usb
            }),
            r.deep_view() =~= device_models(ls, dt).take(k as int),
        decreases lines@.len() - k,
    {
        let ghost prev = r.deep_view();
        let ghost pv = r@;
        let d = HardwareDevice { id: lines[k].clone(), name: lines[k].clone(), device_type: dt };
        let ghost dm = d.deep_view();
        proof {
            assert(ls[k as int] == lines@[k as int]@);
            assert(dm =~~= device_models(ls, dt)[k as int]);
        }
        r.push(d);
        proof {
            assert(r@ == pv.push(d));
            assert(prev.len() == pv.len());
            assert(prev.len() == device_models(ls, dt).take(k as int).len());
            assert forall|i: int| 0 <= i < r@.len() implies r.deep_view()[i] == device_models(
                ls,
                dt,
            ).take(k + 1)[i] by {
                assert(r.deep_view()[i] == r@[i].deep_view());
                if i < k as int {
                    assert(pv.push(d)[i] == pv[i]);
                    assert(pv[i].deep_view() == prev[i]);
                    assert(prev[i] == device_models(ls, dt).take(k as int)[i]);
                } else {
                    assert(pv.push(d)[i] == d);
                    assert(d.deep_view() == dm);
                }
            }
            assert(r.deep_view() =~= device_models(ls, dt).take(k + 1));
        }
        k = k + 1;
    }
    proof {
        assert(device_models(ls, dt).take(ls.len() as int) =~= device_models(ls, dt));
    }
    r
}

pub struct DriverManager;

impl Default for DriverManager {
    fn default() -> DriverManager {
        DriverManager::new()
    }
}

impl DriverManager {
    pub fn new() -> DriverManager {
        DriverManager
    }

    /// Decodes one PCI device per enumeration-output line.
    pub fn parse_pci_devices(&self, output: &str) -> (r: Vec<HardwareDevice>)
        ensures
            r.deep_view() == device_models(spec_lines(output@), DeviceType::Pci),
    {
        parse_device_lines(output, true)
    }

    /// Decodes one USB device per enumeration-output line.
    pub fn parse_usb_devices(&self, output: &str) -> (r: Vec<HardwareDevice>)
        ensures
            r.deep_view() == device_models(spec_lines(output@), DeviceType::Usb),
    {
        parse_device_lines(output, false)
    }

    /// Gathers every device the enumeration tools reported, PCI first; a
    /// tool whose run failed is simply absent from the result.
    pub fn detect_hardware(&self, pci_output: Option<&str>, usb_output: Option<&str>) -> (r: Vec<
        HardwareDevice,
    >)
        ensures
            r.deep_view() == detected_devices(pci_output, usb_output),
    {
        let mut r: Vec<HardwareDevice> = Vec::new();
        let ghost before = r.deep_view();
        proof {
            assert(before =~= Seq::<DeviceModel>::empty());
        }
        if let Some(p) = pci_output {
            let mut pci = self.parse_pci_devices(p);
            let ghost pd = pci.deep_view();
            r.append(&mut pci);
            proof {
                assert(r.deep_view() =~= pd);
            }
        }
        let ghost mid = r.deep_view();
        if let Some(u) = usb_output {
            let mut usb = self.parse_usb_devices(u);
            let ghost ud = usb.deep_view();
            proof {
                assert(mid + ud =~= detected_devices(pci_output, usb_output));
            }
            r.append(&mut usb);
            proof {
                assert(r.deep_view() =~= mid + ud);
            }
        } else {
            proof {
                assert(mid + Seq::<DeviceModel>::empty() =~= mid);
            }
        }
        r
    }

    /// Suggests drivers for one device; the mapping database is not wired
    /// up, so nothing is suggested.
    pub fn suggest_drivers(&self, _device: &HardwareDevice) -> (r: Vec<DriverInfo>)
        ensures
            r@.len() == 0,
    {
        Vec::new()
    }

    /// Whether the PCI enumeration shows an NVIDIA adapter.
    pub fn has_nvidia_gpu(&self, lspci_output: &str) -> (r: bool)
        ensures
            r == contains_ci(lspci_output@, "nvidia"@),
    {
        contains_ci_str(lspci_output, "nvidia")
    }

    /// The proprietary drivers available for the enumerated hardware:
    /// exactly the NVIDIA driver when an NVIDIA adapter shows, nothing
    /// otherwise.
    pub fn check_proprietary_drivers(&self, lspci_output: &str) -> (r: Vec<DriverInfo>)
        ensures
            contains_ci(lspci_output@, "nvidia"@) ==> r@.len() == 1 && r@[0].name@ == "nvidia"@
                && r@[0].description@ == "NVIDIA Proprietary Driver"@ && r@[0].device_ids@.len()
                == 0 && r@[0].driver_type == DriverType::Proprietary && r@[0].recommended,
            !contains_ci(lspci_output@, "nvidia"@) ==> r@.len() == 0,
    {
        let mut r: Vec<DriverInfo> = Vec::new();
        if self.has_nvidia_gpu(lspci_output) {
            r.push(
                DriverInfo {
                    name: String::from_str("nvidia"),
                    description: String::from_str("NVIDIA Proprietary Driver"),
                    device_ids: Vec::new(),
                    driver_type: DriverType::Proprietary,
                    recommended: true,
                },
            );
        }
        r
    }
}

} // verus!
