//! The VM-boot execution mode: building the hypervisor command line.
//!
//! When the container's executable is a unikernel image, the user
//! command is replaced by a hypervisor invocation that boots a loader
//! kernel with the image as initrd.  The argument vector depends on
//! the machine flavour, KVM availability and the network setup.

use vstd::prelude::*;

use crate::network::{spec_ipv4_string, VirtioNetworkConfig};
use crate::numfmt::{u64_dec, u64_to_string};
use crate::paths::join_with;

verus! {

/// How the VM reaches the network: through a tap device, through user
/// networking on one forwarded port, or not at all.
pub enum NetworkConfig {
    TapNetwork(VirtioNetworkConfig),
    UserNetwork(u16),
    NoNetwork,
}

/// The fixed head of the hypervisor command line: display, memory,
/// serial console, the debug-exit device, the loader kernel and the
/// application image.
pub open spec fn spec_qemu_base(kernel: Seq<char>, app: Seq<char>) -> Seq<Seq<char>> {
    seq![
        "qemu-system-x86_64"@,
        "-display"@,
        "none"@,
        "-smp"@,
        "1"@,
        "-m"@,
        "1G"@,
        "-serial"@,
        "stdio"@,
        "-device"@,
        "isa-debug-exit,iobase=0xf4,iosize=0x04"@,
        "-kernel"@,
        kernel,
        "-initrd"@,
        app,
    ]
}

/// The CPU arguments: the host CPU under KVM when the configuration
/// enables it and the host supports it, an emulated CPU otherwise.
pub open spec fn spec_qemu_cpu(config_kvm: Option<bool>, kvm_support: bool) -> Seq<Seq<char>> {
    if config_kvm == Option::Some(true) && kvm_support {
        seq!["--enable-kvm"@, "-cpu"@, "host"@]
    } else {
        seq!["-cpu"@, "qemu64,apic,fsgsbase,rdtscp,xsave,xsaveopt,fxsr,rdrand"@]
    }
}

/// The machine arguments: a stripped-down microvm, or a full machine
/// with a shared-filesystem device.
pub open spec fn spec_qemu_machine(micro_vm: bool) -> Seq<Seq<char>> {
    if micro_vm {
        seq![
            "-M"@,
            "microvm,x-option-roms=off,pit=off,pic=off,rtc=on,auto-kernel-cmdline=off,acpi=off"@,
            "-global"@,
            "virtio-mmio.force-legacy=off"@,
            "-nodefaults"@,
            "-no-user-config"@,
        ]
    } else {
        seq![
            "-chardev"@,
            "socket,id=char0,path=/run/vhostqemu"@,
            "-device"@,
            "vhost-user-fs-pci,queue-size=1024,chardev=char0,tag=root"@,
            "-object"@,
            "memory-backend-file,id=mem,size=1G,mem-path=/dev/shm,share=on"@,
            "-numa"@,
            "node,memdev=mem"@,
        ]
    }
}

/// The network arguments, ending with the `-append` switch whose value
/// follows as the final argument.
pub open spec fn spec_qemu_net(
    netconf: NetworkConfig,
    micro_vm: bool,
    tap_fd: Option<i32>,
) -> Seq<Seq<char>> {
    match netconf {
        NetworkConfig::TapNetwork(nc) => seq![
            "-netdev"@,
            "tap,id=net0,fd="@ + u64_dec(tap_fd->0 as u64),
            "-device"@,
            (if micro_vm {
                "virtio-net-device,netdev=net0,mac="@ + nc.mac@
            } else {
                "virtio-net-pci,netdev=net0,disable-legacy=on,mac="@ + nc.mac@
            }),
            "-append"@,
        ],
        NetworkConfig::UserNetwork(port) => seq![
            "-netdev"@,
            "user,id=u1,hostfwd=tcp::"@ + u64_dec(port as u64) + "-:"@ + u64_dec(port as u64)
                + ",net=192.168.76.0/24,dhcpstart=192.168.76.9"@,
            "-device"@,
            "virtio-net-pci,netdev=u1,disable-legacy=on"@,
            "-append"@,
        ],
        NetworkConfig::NoNetwork => seq!["-append"@],
    }
}

/// The kernel command line handed through `-append`: the network
/// parameters under a tap device, and after a separator the
/// application's own arguments.
pub open spec fn spec_qemu_append(netconf: NetworkConfig, app_args: Seq<Seq<char>>) -> Seq<char> {
    (match netconf {
        NetworkConfig::TapNetwork(nc) => "-ip "@ + spec_ipv4_string(nc.ip) + " -gateway "@
            + spec_ipv4_string(nc.gateway) + " -mask "@ + spec_ipv4_string(nc.mask),
        NetworkConfig::UserNetwork(port) => ""@,
        NetworkConfig::NoNetwork => ""@,
    }) + (if app_args.len() >= 1 {
        " -- "@ + join_with(seq![' '], app_args.skip(1))
    } else {
        ""@
    })
}

/// The whole hypervisor argument vector.
pub open spec fn spec_qemu_args(
    kernel: Seq<char>,
    app: Seq<char>,
    netconf: NetworkConfig,
    app_args: Seq<Seq<char>>,
    micro_vm: bool,
    kvm_support: bool,
    tap_fd: Option<i32>,
    config_kvm: Option<bool>,
) -> Seq<Seq<char>> {
    spec_qemu_base(kernel, app) + spec_qemu_cpu(config_kvm, kvm_support) + spec_qemu_machine(
        micro_vm,
    ) + spec_qemu_net(netconf, micro_vm, tap_fd) + seq![spec_qemu_append(netconf, app_args)]
}

/// Push one literal argument.
fn push_arg(v: &mut Vec<String>, s: &str)
    ensures
        final(v).deep_view() == old(v).deep_view().push(s@),
{
    let ghost pre = v.deep_view();
    v.push(s.to_owned());
    proof {
        assert(v.deep_view() =~= pre.push(s@));
    }
}

/// Build the hypervisor argument vector for a unikernel container: the
/// exact vector of [`spec_qemu_args`].
#[verifier::rlimit(100)]
pub fn get_qemu_args(
    kernel: &str,
    app: &str,
    netconf: &NetworkConfig,
    app_args: &Vec<String>,
    micro_vm: bool,
    kvm_support: bool,
    tap_fd: Option<i32>,
    config_kvm: Option<bool>,
) -> (r: Vec<String>)
    requires
        netconf matches NetworkConfig::TapNetwork(_) ==> tap_fd matches Some(fd) && fd >= 0,
    ensures
        r.deep_view() == spec_qemu_args(
            kernel@,
            app@,
            *netconf,
            app_args.deep_view(),
            micro_vm,
            kvm_support,
            tap_fd,
            config_kvm,
        ),
{
    let mut v: Vec<String> = Vec::new();
    push_arg(&mut v, "qemu-system-x86_64");
    push_arg(&mut v, "-display");
    push_arg(&mut v, "none");
    push_arg(&mut v, "-smp");
    push_arg(&mut v, "1");
    push_arg(&mut v, "-m");
    push_arg(&mut v, "1G");
    push_arg(&mut v, "-serial");
    push_arg(&mut v, "stdio");
    push_arg(&mut v, "-device");
    push_arg(&mut v, "isa-debug-exit,iobase=0xf4,iosize=0x04");
    push_arg(&mut v, "-kernel");
    push_arg(&mut v, kernel);
    push_arg(&mut v, "-initrd");
    push_arg(&mut v, app);
    proof {
        assert(v.deep_view() =~= spec_qemu_base(kernel@, app@));
    }
    let use_kvm = match config_kvm {
        Option::Some(k) => k && kvm_support,
        Option::None => false,
    };
    if use_kvm {
        push_arg(&mut v, "--enable-kvm");
        push_arg(&mut v, "-cpu");
        push_arg(&mut v, "host");
    } else {
        push_arg(&mut v, "-cpu");
        push_arg(&mut v, "qemu64,apic,fsgsbase,rdtscp,xsave,xsaveopt,fxsr,rdrand");
    }
    proof {
        assert(v.deep_view() =~= spec_qemu_base(kernel@, app@) + spec_qemu_cpu(
            config_kvm,
            kvm_support,
        ));
    }
    if micro_vm {
        push_arg(&mut v, "-M");
        push_arg(
            &mut v,
            "microvm,x-option-roms=off,pit=off,pic=off,rtc=on,auto-kernel-cmdline=off,acpi=off",
        );
        push_arg(&mut v, "-global");
        push_arg(&mut v, "virtio-mmio.force-legacy=off");
        push_arg(&mut v, "-nodefaults");
        push_arg(&mut v, "-no-user-config");
    } else {
        push_arg(&mut v, "-chardev");
        push_arg(&mut v, "socket,id=char0,path=/run/vhostqemu");
        push_arg(&mut v, "-device");
        push_arg(&mut v, "vhost-user-fs-pci,queue-size=1024,chardev=char0,tag=root");
        push_arg(&mut v, "-object");
        push_arg(&mut v, "memory-backend-file,id=mem,size=1G,mem-path=/dev/shm,share=on");
        push_arg(&mut v, "-numa");
        push_arg(&mut v, "node,memdev=mem");
    }
    let ghost upto_machine = spec_qemu_base(kernel@, app@) + spec_qemu_cpu(config_kvm, kvm_support)
        + spec_qemu_machine(micro_vm);
    proof {
        assert(v.deep_view() =~= upto_machine);
    }
    let append_value: String = match netconf {
        NetworkConfig::TapNetwork(nc) => {
            push_arg(&mut v, "-netdev");
            let fd = match tap_fd {
                Option::Some(fd) => fd,
                Option::None => 0,
            };
            let mut netdev = String::from_str("tap,id=net0,fd=");
            let fdstr = u64_to_string(fd as u64);
            netdev.append(fdstr.as_str());
            let ghost pre = v.deep_view();
            v.push(netdev);
            proof {
                assert(v.deep_view() =~= pre.push("tap,id=net0,fd="@ + u64_dec(fd as u64)));
            }
            push_arg(&mut v, "-device");
            let mut dev = if micro_vm {
                String::from_str("virtio-net-device,netdev=net0,mac=")
            } else {
                String::from_str("virtio-net-pci,netdev=net0,disable-legacy=on,mac=")
            };
            dev.append(nc.mac.as_str());
            let ghost pre2 = v.deep_view();
            v.push(dev);
            proof {
                if micro_vm {
                    assert(v.deep_view() =~= pre2.push(
                        "virtio-net-device,netdev=net0,mac="@ + nc.mac@,
                    ));
                } else {
                    assert(v.deep_view() =~= pre2.push(
                        "virtio-net-pci,netdev=net0,disable-legacy=on,mac="@ + nc.mac@,
                    ));
                }
            }
            push_arg(&mut v, "-append");
            let mut a = String::from_str("-ip ");
            let ip = crate::network::ipv4_string(&nc.ip);
            a.append(ip.as_str());
            a.append(" -gateway ");
            let gw = crate::network::ipv4_string(&nc.gateway);
            a.append(gw.as_str());
            a.append(" -mask ");
            let mask = crate::network::ipv4_string(&nc.mask);
            a.append(mask.as_str());
            a
        },
        NetworkConfig::UserNetwork(port) => {
            push_arg(&mut v, "-netdev");
            let mut netdev = String::from_str("user,id=u1,hostfwd=tcp::");
            let p = u64_to_string(*port as u64);
            netdev.append(p.as_str());
            netdev.append("-:");
            netdev.append(p.as_str());
            netdev.append(",net=192.168.76.0/24,dhcpstart=192.168.76.9");
            let ghost pre = v.deep_view();
            v.push(netdev);
            proof {
                assert(v.deep_view() =~= pre.push(
                    "user,id=u1,hostfwd=tcp::"@ + u64_dec(*port as u64) + "-:"@ + u64_dec(
                        *port as u64,
                    ) + ",net=192.168.76.0/24,dhcpstart=192.168.76.9"@,
                ));
            }
            push_arg(&mut v, "-device");
            push_arg(&mut v, "virtio-net-pci,netdev=u1,disable-legacy=on");
            push_arg(&mut v, "-append");
            String::new()
        },
        NetworkConfig::NoNetwork => {
            push_arg(&mut v, "-append");
            String::new()
        },
    };
    proof {
        assert(v.deep_view() =~= upto_machine + spec_qemu_net(*netconf, micro_vm, tap_fd));
    }
    let mut append_value = append_value;
    if app_args.len() >= 1 {
        append_value.append(" -- ");
        let mut tail: Vec<String> = Vec::new();
        let mut i: usize = 1;
        while i < app_args.len()
            invariant
                1 <= i <= app_args.deep_view().len() || (app_args.deep_view().len() < 1 && i == 1),
                app_args.deep_view().len() == app_args@.len(),
                tail.deep_view() =~= app_args.deep_view().skip(1).take(i - 1),
            decreases app_args@.len() - i,
        {
            let ghost pre = tail.deep_view();
            tail.push(app_args[i].clone());
            proof {
                assert(tail.deep_view() =~= pre.push(app_args.deep_view()[i as int]));
                assert(pre.push(app_args.deep_view()[i as int]) =~= app_args.deep_view().skip(
                    1,
                ).take(i as int));
            }
            i += 1;
        }
        proof {
            assert(app_args.deep_view().skip(1).take(app_args.deep_view().len() - 1)
                =~= app_args.deep_view().skip(1));
        }
        let joined = crate::paths::join_with_sep(" ", &tail);
        append_value.append(joined.as_str());
        proof {
            reveal_strlit(" ");
            assert(" "@ =~= seq![' ']);
        }
    }
    proof {
        reveal_strlit("");
        assert(""@ =~= Seq::<char>::empty());
        assert(append_value@ =~= spec_qemu_append(*netconf, app_args.deep_view()));
    }
    let ghost pre = v.deep_view();
    v.push(append_value);
    proof {
        assert(v.deep_view() =~= pre.push(spec_qemu_append(*netconf, app_args.deep_view())));
        assert(v.deep_view() =~= spec_qemu_args(
            kernel@,
            app@,
            *netconf,
            app_args.deep_view(),
            micro_vm,
            kvm_support,
            tap_fd,
            config_kvm,
        ));
    }
    v
}

} // verus!
