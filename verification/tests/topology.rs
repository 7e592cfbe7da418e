use rendmp::topology::{find_rail, RailError};

fn devices() -> Vec<Vec<String>> {
    vec![
        vec![],
        vec!["VDD_VCORE".to_string(), "VDD_MEM_ABCD".to_string()],
        vec![],
        vec!["VDDCR_SOC".to_string(), "VDD_MEM_EFGH".to_string()],
        vec!["V3P3_SYS".to_string()],
    ]
}

#[test]
fn a_rail_names_the_device_that_drives_it() {
    assert_eq!(find_rail(&devices(), "VDD_VCORE"), Ok(1));
    assert_eq!(find_rail(&devices(), "VDD_MEM_ABCD"), Ok(1));
    assert_eq!(find_rail(&devices(), "VDD_MEM_EFGH"), Ok(3));
    assert_eq!(find_rail(&devices(), "V3P3_SYS"), Ok(4));
}

#[test]
fn a_rail_that_no_device_drives() {
    assert_eq!(find_rail(&devices(), "VDD_VCOR"), Err(RailError::NotFound));
    assert_eq!(find_rail(&devices(), "vdd_vcore"), Err(RailError::NotFound));
    assert_eq!(find_rail(&devices(), ""), Err(RailError::NotFound));
    assert_eq!(find_rail(&vec![], "VDD_VCORE"), Err(RailError::NotFound));
    assert_eq!(find_rail(&vec![vec![], vec![]], "VDD_VCORE"), Err(RailError::NotFound));
}

#[test]
fn a_rail_that_stands_twice() {
    let mut all = devices();
    all[4].push("VDD_VCORE".to_string());
    assert_eq!(find_rail(&all, "VDD_VCORE"), Err(RailError::Multiple));
    assert_eq!(find_rail(&all, "V3P3_SYS"), Ok(4));
    let mut all = devices();
    all[1].push("VDD_VCORE".to_string());
    assert_eq!(find_rail(&all, "VDD_VCORE"), Err(RailError::Multiple));
    let mut all = devices();
    all[0].push("V3P3_SYS".to_string());
    all[2].push("V3P3_SYS".to_string());
    assert_eq!(find_rail(&all, "V3P3_SYS"), Err(RailError::Multiple));
}
