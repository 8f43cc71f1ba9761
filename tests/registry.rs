use ccm_obs::registry::{imxrt1170, imxrt1180, Imxrt, IMXRT1170_CCM_OBS, IMXRT1180_CCM_OBS};
use ccm_obs::RootClock;

fn resolve(mcu: &Imxrt, name: &str) -> Option<String> {
    mcu.lookup_root_clock(name).map(|n| n.to_string())
}

#[test]
fn every_name_resolves_to_itself() {
    for mcu in [imxrt1170(), imxrt1180()] {
        let names = mcu.all_root_clock_names();
        assert!(!names.is_empty());
        for name in names {
            assert_eq!(resolve(&mcu, name.as_str()), Some(name.to_string()));
        }
    }
}

#[test]
fn enumeration_is_sorted_and_complete() {
    let mcu = imxrt1170();
    let names: Vec<String> = mcu.all_root_clock_names().iter().map(|n| n.to_string()).collect();
    assert_eq!(names.len(), 15);
    let mut sorted = names.clone();
    sorted.sort();
    assert_eq!(names, sorted);
    assert_eq!(imxrt1180().all_root_clock_names().len(), 11);
}

#[test]
fn resolution_ignores_case() {
    let mcu = imxrt1170();
    let a = resolve(&mcu, "m7_clk_root");
    assert_eq!(a, Some(String::from("M7_CLK_ROOT")));
    assert_eq!(resolve(&mcu, "M7_CLK_ROOT"), a);
    assert_eq!(resolve(&mcu, "M7_Clk_Root"), a);
}

#[test]
fn suffix_inference() {
    let mcu = imxrt1170();
    assert_eq!(resolve(&mcu, "m7"), Some(String::from("M7_CLK_ROOT")));
    assert_eq!(resolve(&mcu, "osc_24m"), Some(String::from("OSC_24M_OUT")));
    assert_eq!(resolve(&mcu, "enet_qos"), Some(String::from("ENET_QOS_CLK_ROOT")));
}

#[test]
fn suffix_not_doubled() {
    let mcu = imxrt1170();
    assert_eq!(resolve(&mcu, "osc_rc_400m_clk_root"), None);
    assert_eq!(resolve(&mcu, "osc_rc_400m"), Some(String::from("OSC_RC_400M")));
}

#[test]
fn unknown_name_is_absent() {
    assert_eq!(resolve(&imxrt1170(), "not_a_real_clock"), None);
    assert_eq!(resolve(&imxrt1180(), "m7"), None);
    assert_eq!(resolve(&imxrt1170(), ""), None);
}

#[test]
fn clock_out_suffix_on_second_family() {
    let mcu = imxrt1180();
    assert_eq!(resolve(&mcu, "pll_480"), Some(String::from("PLL_480_OUT")));
    assert_eq!(resolve(&mcu, "m33"), Some(String::from("M33_CLK_ROOT")));
}

#[test]
fn lookup_uppercase_exact() {
    let mcu = imxrt1170();
    let r = mcu.lookup_uppercase(&String::from("ENET1")).map(|n| n.to_string());
    assert_eq!(r, Some(String::from("ENET1_CLK_ROOT")));
    assert!(mcu.lookup_uppercase(&String::from("enet1")).is_none());
}

#[test]
fn get_returns_table_entry() {
    let mcu = imxrt1170();
    let name = mcu.lookup_root_clock("enet1").unwrap();
    assert_eq!(*mcu.get(name), RootClock::new(179, 2));
    let m7 = mcu.lookup_root_clock("m7").unwrap();
    assert_eq!(mcu.get(m7).select_index(), 128);
    assert_eq!(mcu.get(m7).slice_number(), 4);
}

#[test]
fn family_bases() {
    assert_eq!(imxrt1170().ccm_obs(), IMXRT1170_CCM_OBS);
    assert_eq!(IMXRT1170_CCM_OBS, 0x4015_0000);
    assert_eq!(imxrt1180().ccm_obs(), 0x4445_0000 + 0x4400);
    assert_eq!(IMXRT1180_CCM_OBS, 0x4445_4400);
}

#[test]
fn later_entry_replaces_earlier() {
    let mcu = Imxrt::new(
        0x1000,
        vec![
            (String::from("A_CLK_ROOT"), RootClock::new(1, 0)),
            (String::from("B_OUT"), RootClock::new(2, 1)),
            (String::from("A_CLK_ROOT"), RootClock::new(3, 2)),
        ],
    );
    let names: Vec<String> = mcu.all_root_clock_names().iter().map(|n| n.to_string()).collect();
    assert_eq!(names, vec![String::from("A_CLK_ROOT"), String::from("B_OUT")]);
    let a = mcu.lookup_root_clock("a").unwrap();
    assert_eq!(*mcu.get(a), RootClock::new(3, 2));
    let b = mcu.lookup_root_clock("b").unwrap();
    assert_eq!(b.as_str(), "B_OUT");
}

#[test]
fn root_clock_accessors() {
    let c = RootClock::new(7, 3);
    assert_eq!(c.select_index(), 7);
    assert_eq!(c.slice_number(), 3);
}

fn names_of(mcu: &Imxrt) -> Vec<String> {
    mcu.all_root_clock_names().iter().map(|n| n.to_string()).collect()
}

#[test]
fn imxrt1170_name_list() {
    let expected = [
        "BUS_CLK_LPSR_CLK_ROOT", "BUS_CLK_ROOT", "ENET1_CLK_ROOT", "ENET2_CLK_ROOT",
        "ENET_25M_CLK_ROOT", "ENET_QOS_CLK_ROOT", "ENET_TIMER1_CLK_ROOT", "ENET_TIMER2_CLK_ROOT",
        "ENET_TIMER3_CLK_ROOT", "M4_CLK_ROOT", "M4_SYSTICK_CLK_ROOT", "M7_CLK_ROOT",
        "M7_SYSTICK_CLK_ROOT", "OSC_24M_OUT", "OSC_RC_400M",
    ];
    assert_eq!(names_of(&imxrt1170()), expected.map(String::from).to_vec());
}

#[test]
fn imxrt1180_name_list() {
    let expected = [
        "FLEXSPI1_CLK_ROOT", "M33_CLK_ROOT", "OSC_24M_OUT", "OSC_RC_24M", "OSC_RC_400M",
        "PLL_480_DIV2", "PLL_480_OUT", "PLL_480_PFD0", "PLL_480_PFD1", "PLL_480_PFD2",
        "PLL_480_PFD3",
    ];
    assert_eq!(names_of(&imxrt1180()), expected.map(String::from).to_vec());
}

#[test]
fn no_prefix_match() {
    let mcu = imxrt1170();
    for name in ["enet", "m", "", "clk_root"] {
        assert!(mcu.lookup_root_clock(name).is_none(), "{name}");
    }
}

#[test]
fn resolution_is_per_family() {
    assert_eq!(resolve(&imxrt1180(), "m33"), Some(String::from("M33_CLK_ROOT")));
    assert_eq!(resolve(&imxrt1170(), "m33"), None);
}

#[test]
fn table_entries_1180() {
    let mcu = imxrt1180();
    let pfd2 = mcu.lookup_root_clock("pll_480_pfd2").unwrap();
    assert_eq!(*mcu.get(pfd2), RootClock::new(19, 0));
    let base = mcu.lookup_root_clock("flexspi1").unwrap();
    assert_eq!(*mcu.get(base), RootClock::new(149, 0));
}
