use boopbot_core::jobs::JobType;

#[test]
fn from_string_parses_every_wire_name() {
    assert_eq!(JobType::from_string("miner"), JobType::Miner);
    assert_eq!(JobType::from_string("farmer"), JobType::Farmer);
    assert_eq!(JobType::from_string("programmer"), JobType::Programmer);
    assert_eq!(JobType::from_string("teacher"), JobType::Teacher);
    assert_eq!(JobType::from_string("doctor"), JobType::Doctor);
}

#[test]
fn from_string_unknown_means_no_job() {
    assert_eq!(JobType::from_string("cosmonaut"), JobType::Unemployed);
    assert_eq!(JobType::from_string(""), JobType::Unemployed);
    assert_eq!(JobType::from_string("Miner"), JobType::Unemployed);
}

#[test]
fn to_string_gives_the_wire_names() {
    assert_eq!(JobType::Miner.to_string(), "miner");
    assert_eq!(JobType::Farmer.to_string(), "farmer");
    assert_eq!(JobType::Programmer.to_string(), "programmer");
    assert_eq!(JobType::Teacher.to_string(), "teacher");
    assert_eq!(JobType::Doctor.to_string(), "doctor");
    assert_eq!(JobType::Unemployed.to_string(), "none");
}

#[test]
fn descriptions_are_fixed() {
    assert_eq!(
        JobType::Farmer.get_description(),
        "Grow crops to feed your fellow comrades"
    );
    assert_eq!(
        JobType::Unemployed.get_description(),
        "Unemployed and bringing shame to your comrades"
    );
}

#[test]
fn list_all_holds_the_five_jobs_in_order() {
    let all = JobType::list_all();
    assert_eq!(
        all,
        vec![
            JobType::Miner,
            JobType::Farmer,
            JobType::Programmer,
            JobType::Teacher,
            JobType::Doctor,
        ]
    );
}

#[test]
fn wire_names_round_trip() {
    for job in JobType::list_all() {
        assert_eq!(JobType::from_string(&job.to_string()), job);
    }
    assert_eq!(
        JobType::from_string(&JobType::Unemployed.to_string()),
        JobType::Unemployed
    );
}
