use osiris_fetch::{
    find_description, get_inv, plan_jobs, rgDescription, rgInventory, Action, InventoryError, SteamApi,
};

fn entry(instance: &str, class: &str, id: &str) -> rgInventory {
    rgInventory { instanceid: instance.to_string(), classid: class.to_string(), id: id.to_string() }
}

fn desc(instance: &str, class: &str, warnings: Option<Vec<&str>>, with_action: bool) -> rgDescription {
    rgDescription {
        appid: "730".to_string(),
        classid: class.to_string(),
        instanceid: instance.to_string(),
        fraudwarnings: warnings.map(|w| w.into_iter().map(|s| s.to_string()).collect()),
        actions: if with_action {
            Some(vec![Action { name: "Inspect in Game...".to_string(), link: "S%owner_steamid%A%assetid%D1".to_string() }])
        } else {
            None
        },
    }
}

fn listing(n: usize) -> SteamApi {
    SteamApi {
        success: true,
        inventory: (0..n).map(|i| entry("0", "100", &format!("{}", i))).collect(),
        descriptions: vec![desc("0", "100", None, true)],
    }
}

#[test]
fn warning_name_tag_is_extracted() {
    let inv = SteamApi {
        success: true,
        inventory: vec![entry("1", "2", "42")],
        descriptions: vec![desc("1", "2", Some(vec!["Name Tag: ''hello''"]), true)],
    };
    let jobs = plan_jobs(&inv, "765", 50);
    assert_eq!(jobs.len(), 1);
    assert_eq!(jobs[0].name_tag, Some("hello".to_string()));
    assert_eq!(jobs[0].link, "S765A42D1");
}

#[test]
fn match_by_pair_not_by_position() {
    let inv = SteamApi {
        success: true,
        inventory: vec![entry("1", "9", "a"), entry("1", "2", "b")],
        descriptions: vec![desc("9", "1", None, true), desc("1", "2", None, true), desc("1", "9", None, true)],
    };
    assert_eq!(find_description(&inv.descriptions, &inv.inventory[0]), Some(2));
    assert_eq!(find_description(&inv.descriptions, &inv.inventory[1]), Some(1));
    assert_eq!(find_description(&inv.descriptions, &entry("5", "5", "c")), None);
    let jobs = plan_jobs(&inv, "7", 50);
    let pairs: Vec<(usize, usize)> = jobs.iter().map(|j| (j.entry, j.description)).collect();
    assert_eq!(pairs, vec![(0, 2), (1, 1)]);
}

#[test]
fn unmatched_entries_are_skipped_uncounted() {
    let inv = SteamApi {
        success: true,
        inventory: vec![entry("8", "8", "a"), entry("0", "100", "b"), entry("0", "100", "c")],
        descriptions: vec![desc("0", "100", None, true), desc("8", "8", None, false)],
    };
    let jobs = plan_jobs(&inv, "7", 0);
    assert_eq!(jobs.len(), 1);
    assert_eq!(jobs[0].entry, 1);
}

#[test]
fn limit_boundary_is_one_past() {
    assert_eq!(plan_jobs(&listing(10), "7", 3).len(), 4);
    assert_eq!(plan_jobs(&listing(10), "7", 0).len(), 1);
}

#[test]
fn limit_never_exceeds_entries() {
    assert_eq!(plan_jobs(&listing(3), "7", 3).len(), 3);
    assert_eq!(plan_jobs(&listing(3), "7", 50).len(), 3);
    assert_eq!(plan_jobs(&listing(0), "7", 5).len(), 0);
}

#[test]
fn unsuccessful_listing_refused() {
    let mut inv = listing(2);
    inv.success = false;
    assert!(matches!(get_inv(&inv, "7", 5, false), Err(InventoryError::Unsuccessful)));
}

#[test]
fn run_without_retry() {
    let mut rec = match get_inv(&listing(3), "7", 50, false) {
        Ok(r) => r,
        Err(_) => panic!("listing refused"),
    };
    let mut seen = Vec::new();
    let mut n = 0;
    while let Some(job) = rec.next_job() {
        seen.push(job.link.clone());
        let outcome = if n == 1 { None } else { Some(format!("r{},\n", n)) };
        rec.record(outcome);
        n += 1;
    }
    assert!(rec.is_finished());
    assert_eq!(seen, vec!["S7A0D1", "S7A1D1", "S7A2D1"]);
    assert_eq!(rec.output(), "r0,\nr2,\n");
}

#[test]
fn retry_pass_attempts_each_reject_once() {
    let mut rec = match get_inv(&listing(4), "7", 50, true) {
        Ok(r) => r,
        Err(_) => panic!("listing refused"),
    };
    let mut seen = Vec::new();
    let mut n = 0;
    while let Some(job) = rec.next_job() {
        seen.push(job.link.clone());
        // Entries 1 and 3 fail the first time; every retry fails too.
        let outcome = if n == 0 || n == 2 { Some(format!("r{},\n", n)) } else { None };
        rec.record(outcome);
        n += 1;
    }
    assert_eq!(seen, vec!["S7A0D1", "S7A1D1", "S7A2D1", "S7A3D1", "S7A1D1", "S7A3D1"]);
    assert_eq!(rec.output(), "r0,\nr2,\n");
}

#[test]
fn retry_success_is_appended() {
    let mut rec = match get_inv(&listing(2), "7", 50, true) {
        Ok(r) => r,
        Err(_) => panic!("listing refused"),
    };
    let mut n = 0;
    while rec.next_job().is_some() {
        let outcome = if n == 0 { None } else { Some(format!("r{},\n", n)) };
        rec.record(outcome);
        n += 1;
    }
    assert_eq!(n, 3);
    assert_eq!(rec.output(), "r1,\nr2,\n");
}

#[test]
fn empty_run_with_retry_is_finished() {
    let rec = match get_inv(&listing(0), "7", 5, true) {
        Ok(r) => r,
        Err(_) => panic!("listing refused"),
    };
    assert!(rec.is_finished());
    assert!(rec.next_job().is_none());
}

#[test]
fn blank_placeholders() {
    let d = rgDescription::blank();
    assert_eq!(d.instanceid, "NaN");
    assert_eq!(d.classid, "NaN");
    assert_eq!(d.appid, "NaN");
    assert!(d.actions.is_none());
    assert!(d.fraudwarnings.is_none());
    let e = entry("1", "2", "3").blank();
    assert_eq!(e.id, "NaN");
    assert_eq!(e.instanceid, "NaN");
    assert_eq!(e.classid, "NaN");
}
