use rlsh::shell::job_list::{JobError, JobList, State};

#[test]
fn job_list_adding_jobs() {
    let mut list = JobList::new();
    let result = list.add(1, State::FG, "one".to_string());
    assert_eq!(Ok(0), result);
    let result = list.add(2, State::BG, "two".to_string());
    assert_eq!(Ok(1), result);
    let result = list.add(3, State::FG, "three".to_string());
    assert_eq!(
        Err("Can't add a foreground job if a foreground job already exists"),
        result.map_err(|e| e.message())
    );
    let result = list.add(3, State::BG, "three".to_string());
    assert_eq!(Ok(2), result);
}

#[test]
fn job_list_get_jobs() {
    let mut list = JobList::new();
    list.add(1, State::FG, "one".to_string()).unwrap();
    list.add(2, State::BG, "two".to_string()).unwrap();
    list.add(3, State::BG, "three".to_string()).unwrap();
    assert_eq!(Some(1), list.get_pid(0));
    assert_eq!(Some(State::FG), list.get_state(0));
    assert_eq!(Some("one".to_string()), list.get_cmdline(0));
    assert_eq!(Some(2), list.get_pid(1));
    assert_eq!(Some(State::BG), list.get_state(1));
    assert_eq!(Some("two".to_string()), list.get_cmdline(1));
    assert_eq!(Some(3), list.get_pid(2));
    assert_eq!(Some(State::BG), list.get_state(2));
    assert_eq!(Some("three".to_string()), list.get_cmdline(2));
    assert_eq!(None, list.get_pid(3));
}

#[test]
fn job_list_delete_jobs() {
    let mut list = JobList::new();
    list.add(1, State::FG, "one".to_string()).unwrap();
    list.add(2, State::BG, "two".to_string()).unwrap();
    list.add(3, State::BG, "three".to_string()).unwrap();
    assert_eq!(false, list.delete(3));
    assert_eq!(true, list.delete(1));
    assert_eq!(None, list.get_pid(1));
    assert_eq!(Ok(3), list.add(4, State::BG, "four".to_string()));
    assert_eq!(true, list.delete(3));
    assert_eq!(None, list.get_pid(3));
    assert_eq!(true, list.delete(2));
    assert_eq!(None, list.get_pid(2));
    assert_eq!(Ok(1), list.add(5, State::BG, "four".to_string()));
}

#[test]
fn ids_are_handed_out_in_sequence() {
    let mut list = JobList::new();
    assert_eq!(None, list.high_watermark());
    assert_eq!(Ok(0), list.add(1, State::FG, "one".to_string()));
    assert_eq!(Some(0), list.high_watermark());
    assert_eq!(Ok(1), list.add(2, State::BG, "two".to_string()));
    assert_eq!(Some(1), list.high_watermark());
}

#[test]
fn second_foreground_job_is_turned_away() {
    let mut list = JobList::new();
    list.add(1, State::BG, "back".to_string()).unwrap();
    list.add(2, State::FG, "front".to_string()).unwrap();
    let result = list.add(3, State::FG, "late".to_string());
    assert_eq!(Err(JobError::ForegroundConflict), result);
    assert_eq!(
        "Can't add a foreground job if a foreground job already exists",
        JobError::ForegroundConflict.message()
    );
    assert_eq!(Some(1), list.high_watermark());
    assert_eq!(Some(2), list.get_pid(1));
    assert_eq!(Some(State::FG), list.get_state(1));
    assert_eq!(Some("front".to_string()), list.get_cmdline(1));
    assert_eq!(None, list.get_pid(2));
    assert_eq!(Ok(2), list.add(3, State::BG, "late".to_string()));
}

#[test]
fn deleting_the_highest_id_frees_it() {
    let mut list = JobList::new();
    list.add(10, State::BG, "a".to_string()).unwrap();
    list.add(11, State::BG, "b".to_string()).unwrap();
    list.add(12, State::BG, "c".to_string()).unwrap();
    assert_eq!(true, list.delete(2));
    assert_eq!(Some(1), list.high_watermark());
    assert_eq!(Ok(2), list.add(13, State::BG, "d".to_string()));
    assert_eq!(Some(13), list.get_pid(2));
}

#[test]
fn deleting_a_lower_id_leaves_a_gap() {
    let mut list = JobList::new();
    list.add(10, State::BG, "a".to_string()).unwrap();
    list.add(11, State::BG, "b".to_string()).unwrap();
    list.add(12, State::BG, "c".to_string()).unwrap();
    assert_eq!(true, list.delete(1));
    assert_eq!(Some(2), list.high_watermark());
    assert_eq!(Ok(3), list.add(13, State::BG, "d".to_string()));
    assert_eq!(None, list.get_pid(1));
}

#[test]
fn watermark_skips_gaps_when_it_falls() {
    let mut list = JobList::new();
    for pid in 0..5 {
        list.add(pid, State::BG, "job".to_string()).unwrap();
    }
    assert_eq!(true, list.delete(2));
    assert_eq!(true, list.delete(3));
    assert_eq!(Some(4), list.high_watermark());
    assert_eq!(true, list.delete(4));
    assert_eq!(Some(1), list.high_watermark());
    assert_eq!(Ok(2), list.add(9, State::BG, "job".to_string()));
    assert_eq!(true, list.delete(2));
    assert_eq!(true, list.delete(1));
    assert_eq!(true, list.delete(0));
    assert_eq!(None, list.high_watermark());
    assert_eq!(Ok(0), list.add(9, State::BG, "job".to_string()));
}

#[test]
fn deleting_the_foreground_job_frees_the_foreground() {
    let mut list = JobList::new();
    list.add(1, State::BG, "back".to_string()).unwrap();
    list.add(2, State::FG, "front".to_string()).unwrap();
    assert_eq!(true, list.delete(1));
    assert_eq!(None, list.get_state(1));
    assert_eq!(None, list.get_pid(1));
    assert_eq!(None, list.get_cmdline(1));
    assert_eq!(Ok(1), list.add(3, State::FG, "next".to_string()));
    assert_eq!(Some(State::FG), list.get_state(1));
}

#[test]
fn deleting_an_absent_job_changes_nothing() {
    let mut list = JobList::new();
    assert_eq!(false, list.delete(0));
    list.add(1, State::FG, "one".to_string()).unwrap();
    list.add(2, State::BG, "two".to_string()).unwrap();
    assert_eq!(false, list.delete(2));
    assert_eq!(false, list.delete(usize::MAX));
    assert_eq!(Some(1), list.high_watermark());
    assert_eq!(Some(1), list.get_pid(0));
    assert_eq!(Some(2), list.get_pid(1));
    assert_eq!(Err(JobError::ForegroundConflict), list.add(3, State::FG, "three".to_string()));
    assert_eq!(true, list.delete(1));
    assert_eq!(false, list.delete(1));
}

fn two_background_jobs() -> JobList {
    let mut list = JobList::new();
    list.add(5, State::FG, "front".to_string()).unwrap();
    list.add(6, State::BG, "first".to_string()).unwrap();
    list.add(7, State::BG, "second".to_string()).unwrap();
    list
}

#[test]
fn background_jobs_end_in_either_order() {
    let mut list = two_background_jobs();
    assert_eq!(true, list.delete(1));
    assert_eq!(None, list.get_pid(1));
    assert_eq!(Some(7), list.get_pid(2));
    assert_eq!(Some("second".to_string()), list.get_cmdline(2));
    assert_eq!(true, list.delete(2));
    assert_eq!(Some(5), list.get_pid(0));
    assert_eq!(Some(0), list.high_watermark());

    let mut list = two_background_jobs();
    assert_eq!(true, list.delete(2));
    assert_eq!(None, list.get_pid(2));
    assert_eq!(Some(6), list.get_pid(1));
    assert_eq!(Some("first".to_string()), list.get_cmdline(1));
    assert_eq!(true, list.delete(1));
    assert_eq!(Some(5), list.get_pid(0));
    assert_eq!(Some(0), list.high_watermark());
}

#[test]
fn session_from_start_to_end() {
    let mut list = JobList::new();
    assert_eq!(Ok(0), list.add(1, State::FG, "one".to_string()));
    assert_eq!(Ok(1), list.add(2, State::BG, "two".to_string()));
    assert_eq!(
        Err(JobError::ForegroundConflict),
        list.add(3, State::FG, "three".to_string())
    );
    assert_eq!(Ok(2), list.add(3, State::BG, "three".to_string()));
    assert_eq!(true, list.delete(1));
    assert_eq!(None, list.get_pid(1));
    assert_eq!(Ok(3), list.add(4, State::BG, "four".to_string()));
}

#[test]
fn state_names() {
    assert_eq!("Background", State::BG.name());
    assert_eq!("Foreground", State::FG.name());
}

#[test]
fn listing_of_an_empty_table_is_empty() {
    let list = JobList::new();
    let mut out = String::from("jobs:");
    list.print_jobs(&mut out);
    assert_eq!("jobs:", out);
}

#[test]
fn listing_shows_one_line_per_job() {
    let mut list = JobList::new();
    list.add(4021, State::FG, "vim notes\n".to_string()).unwrap();
    let mut out = String::new();
    list.print_jobs(&mut out);
    assert_eq!("[0] (4021) Foreground vim notes\n", out);

    list.add(77, State::BG, "sleep 100 &\n".to_string()).unwrap();
    let mut out = String::new();
    list.print_jobs(&mut out);
    let first = "[0] (4021) Foreground vim notes\n";
    let second = "[1] (77) Background sleep 100 &\n";
    assert!(out == format!("{first}{second}") || out == format!("{second}{first}"));
}

#[test]
fn listing_names_every_job_once() {
    let mut list = JobList::new();
    for pid in 0..12u32 {
        list.add(pid + 100, State::BG, format!("job{pid};")).unwrap();
    }
    list.delete(3);
    list.delete(11);
    let mut out = String::new();
    list.print_jobs(&mut out);
    let mut lines: Vec<&str> = out.split_terminator(';').collect();
    lines.sort();
    let mut expected: Vec<String> = Vec::new();
    for jid in 0..12u32 {
        if jid != 3 && jid != 11 {
            expected.push(format!("[{jid}] ({}) Background job{jid}", jid + 100));
        }
    }
    expected.sort();
    assert_eq!(expected, lines);
}
