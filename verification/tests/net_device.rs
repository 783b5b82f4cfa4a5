use vm_runner::net_device::NetDevice;

fn device_tokens(tokens: &[&str]) -> Vec<String> {
    tokens.iter().map(|t| t.to_string()).collect()
}

#[test]
fn bare_device_has_only_its_id() {
    let tokens = NetDevice::new("eth0").to_string();
    assert_eq!(
        tokens,
        device_tokens(&[
            "-netdev",
            "user,id=eth0",
            "-device",
            "virtio-net-pci,netdev=eth0,romfile=",
        ])
    );
}

#[test]
fn full_device_renders_every_segment() {
    let tokens = NetDevice::new("eth0")
        .mask("192.168.1.0/24")
        .dhcp_start("192.168.1.10")
        .port_forward(2222, 22)
        .to_string();
    assert_eq!(
        tokens,
        device_tokens(&[
            "-netdev",
            "user,id=eth0,net=192.168.1.0/24,dhcpstart=192.168.1.10,hostfwd=tcp::2222-:22",
            "-device",
            "virtio-net-pci,netdev=eth0,romfile=",
        ])
    );
}

#[test]
fn segments_do_not_depend_on_the_order_of_the_calls() {
    let one = NetDevice::new("eth0")
        .port_forward(2222, 22)
        .mask("192.168.1.0/24")
        .dhcp_start("192.168.1.10")
        .to_string();
    let other = NetDevice::new("eth0")
        .dhcp_start("192.168.1.10")
        .mask("192.168.1.0/24")
        .port_forward(2222, 22)
        .to_string();
    assert_eq!(one, other);
    assert_eq!(
        one[1],
        "user,id=eth0,net=192.168.1.0/24,dhcpstart=192.168.1.10,hostfwd=tcp::2222-:22"
    );
}

#[test]
fn mask_alone() {
    let tokens = NetDevice::new("eth1").mask("192.168.2.0/24").to_string();
    assert_eq!(tokens[1], "user,id=eth1,net=192.168.2.0/24");
    assert!(tokens[1].contains("net="));
    assert!(!tokens[1].contains("dhcpstart="));
    assert!(!tokens[1].contains("hostfwd="));
}

#[test]
fn dhcp_start_alone() {
    let tokens = NetDevice::new("eth1").dhcp_start("192.168.2.10").to_string();
    assert_eq!(tokens[1], "user,id=eth1,dhcpstart=192.168.2.10");
    assert!(!tokens[1].contains("net="));
    assert!(tokens[1].contains("dhcpstart="));
}

#[test]
fn later_mask_replaces_earlier_mask() {
    let tokens = NetDevice::new("n").mask("10.0.0.0/8").mask("10.1.0.0/16").to_string();
    assert_eq!(tokens[1], "user,id=n,net=10.1.0.0/16");
}

#[test]
fn later_dhcp_start_replaces_earlier_one() {
    let tokens = NetDevice::new("n").dhcp_start("10.0.0.5").dhcp_start("10.0.0.9").to_string();
    assert_eq!(tokens[1], "user,id=n,dhcpstart=10.0.0.9");
}

#[test]
fn forwards_keep_their_order_and_their_duplicates() {
    let tokens = NetDevice::new("n")
        .port_forward(8080, 80)
        .port_forward(2222, 22)
        .port_forward(8080, 80)
        .to_string();
    assert_eq!(
        tokens[1],
        "user,id=n,hostfwd=tcp::8080-:80,hostfwd=tcp::2222-:22,hostfwd=tcp::8080-:80"
    );
    assert_eq!(tokens[1].matches("hostfwd=").count(), 3);
}

#[test]
fn rendering_always_gives_four_tokens() {
    assert_eq!(NetDevice::new("").to_string().len(), 4);
    assert_eq!(NetDevice::new("a").mask("m").to_string().len(), 4);
    assert_eq!(
        NetDevice::new("a").port_forward(1, 2).port_forward(3, 4).to_string().len(),
        4
    );
}

#[test]
fn ports_are_written_in_decimal() {
    let tokens = NetDevice::new("n")
        .port_forward(0, 4294967295)
        .port_forward(10, 65535)
        .to_string();
    assert_eq!(
        tokens[1],
        "user,id=n,hostfwd=tcp::0-:4294967295,hostfwd=tcp::10-:65535"
    );
}

#[test]
fn malformed_values_pass_through_unchanged() {
    let tokens = NetDevice::new("my id").mask("not a cidr").dhcp_start("").to_string();
    assert_eq!(tokens[1], "user,id=my id,net=not a cidr,dhcpstart=");
    assert_eq!(tokens[3], "virtio-net-pci,netdev=my id,romfile=");
}

#[test]
fn an_id_that_holds_a_marker_shows_it_without_a_mask() {
    let tokens = NetDevice::new("net=0").to_string();
    assert_eq!(tokens[1], "user,id=net=0");
    assert!(tokens[1].contains("net="));
}

#[test]
fn rendering_leaves_the_device_unchanged() {
    let device = NetDevice::new("eth0").mask("192.168.1.0/24").port_forward(2222, 22);
    let first = device.to_string();
    let second = device.to_string();
    assert_eq!(first, second);
}
