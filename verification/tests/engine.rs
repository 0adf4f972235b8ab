use datatool::engine::run_batch;
use datatool::engine::run_item;
use datatool::engine::run_job;
use datatool::engine::ConversionJob;
use datatool::engine::PlannedJob;
use datatool::failure::ConversionOutcome;
use datatool::failure::Failure;
use datatool::path::FilePath;
use std::sync::Mutex;

fn job(source: &str, destination: &str) -> ConversionJob {
    ConversionJob { source: FilePath::parse(source), destination: FilePath::parse(destination) }
}

fn no_directory(_directory: &FilePath) -> ConversionOutcome {
    Ok(())
}

#[test]
fn batch_without_items_succeeds() {
    let calls = Mutex::new(0usize);
    let convert = |_job: &ConversionJob| -> ConversionOutcome {
        *calls.lock().unwrap() += 1;
        Ok(())
    };
    assert_eq!(run_batch(&Vec::new(), &no_directory, &convert), Ok(()));
    assert_eq!(*calls.lock().unwrap(), 0);
}

#[test]
fn batch_converts_every_job() {
    let items: Vec<PlannedJob> = (0..20)
        .map(|i| PlannedJob::Ready(job(&format!("in/f{}.csv", i), &format!("out/f{}.parquet", i))))
        .collect();
    let written = Mutex::new(Vec::<String>::new());
    let convert = |job: &ConversionJob| -> ConversionOutcome {
        written.lock().unwrap().push(job.destination.to_string());
        Ok(())
    };
    assert_eq!(run_batch(&items, &no_directory, &convert), Ok(()));
    let mut written = written.into_inner().unwrap();
    written.sort();
    let mut expected: Vec<String> = (0..20).map(|i| format!("out/f{}.parquet", i)).collect();
    expected.sort();
    assert_eq!(written, expected);
}

#[test]
fn one_failing_job_fails_the_batch() {
    let items: Vec<PlannedJob> = (0..8)
        .map(|i| PlannedJob::Ready(job(&format!("in/f{}.csv", i), &format!("out/f{}.parquet", i))))
        .collect();
    let written = Mutex::new(Vec::<String>::new());
    let convert = |job: &ConversionJob| -> ConversionOutcome {
        if job.source.to_string() == "in/f3.csv" {
            Err(Failure::new("boom"))
        } else {
            written.lock().unwrap().push(job.destination.to_string());
            Ok(())
        }
    };
    let outcome = run_batch(&items, &no_directory, &convert);
    assert_eq!(
        outcome,
        Err(Failure::new("boom").context("Failed to process file: \"in/f3.csv\""))
    );
    let written = written.into_inner().unwrap();
    assert!(!written.contains(&"out/f3.parquet".to_string()));
    for destination in written.iter() {
        assert!(destination.starts_with("out/f") && destination.ends_with(".parquet"));
    }
}

#[test]
fn failure_of_a_batch_is_the_failure_of_one_of_its_jobs() {
    let items: Vec<PlannedJob> = (0..16)
        .map(|i| PlannedJob::Ready(job(&format!("in/f{}.csv", i), &format!("out/f{}.parquet", i))))
        .collect();
    let convert = |job: &ConversionJob| -> ConversionOutcome {
        Err(Failure::new(&format!("cannot read {}", job.source.to_string())))
    };
    let failure = run_batch(&items, &no_directory, &convert).unwrap_err();
    let possible: Vec<Failure> = (0..16)
        .map(|i| {
            Failure::new(&format!("cannot read in/f{}.csv", i))
                .context(&format!("Failed to process file: \"in/f{}.csv\"", i))
        })
        .collect();
    assert!(possible.contains(&failure));
}

#[test]
fn misplaced_file_fails_the_batch() {
    let items = vec![PlannedJob::Misplaced(FilePath::parse("elsewhere/a.csv"))];
    let convert = |_job: &ConversionJob| -> ConversionOutcome { Ok(()) };
    assert_eq!(
        run_batch(&items, &no_directory, &convert),
        Err(Failure::from_causes(vec![
            "Failed to strip prefix from path: \"elsewhere/a.csv\"".to_string(),
            "prefix not found".to_string(),
        ]))
    );
}

#[test]
fn directory_of_the_destination_is_created_before_the_conversion() {
    let log = Mutex::new(Vec::<String>::new());
    let create_dir = |directory: &FilePath| -> ConversionOutcome {
        log.lock().unwrap().push(format!("mkdir {}", directory.to_string()));
        Ok(())
    };
    let convert = |job: &ConversionJob| -> ConversionOutcome {
        log.lock().unwrap().push(format!("convert {}", job.destination.to_string()));
        Ok(())
    };
    let item = PlannedJob::Ready(job("in/sub/b.csv", "out/sub/b.parquet"));
    assert_eq!(run_item(&create_dir, &convert, &item), Ok(()));
    assert_eq!(
        log.into_inner().unwrap(),
        vec!["mkdir out/sub".to_string(), "convert out/sub/b.parquet".to_string()]
    );
}

#[test]
fn job_is_not_converted_where_its_directory_cannot_be_created() {
    let converted = Mutex::new(false);
    let create_dir =
        |_directory: &FilePath| -> ConversionOutcome { Err(Failure::new("Permission denied")) };
    let convert = |_job: &ConversionJob| -> ConversionOutcome {
        *converted.lock().unwrap() = true;
        Ok(())
    };
    let item = PlannedJob::Ready(job("in/sub/b.csv", "out/sub/b.parquet"));
    assert_eq!(
        run_item(&create_dir, &convert, &item),
        Err(Failure::new("Permission denied")
            .context("Failed to create output directory: \"out/sub\""))
    );
    assert!(!*converted.lock().unwrap());
}

#[test]
fn destination_without_parent_needs_no_directory() {
    let made = Mutex::new(0usize);
    let create_dir = |_directory: &FilePath| -> ConversionOutcome {
        *made.lock().unwrap() += 1;
        Ok(())
    };
    let convert = |_job: &ConversionJob| -> ConversionOutcome { Ok(()) };
    let item = PlannedJob::Ready(job("in", ""));
    assert_eq!(run_item(&create_dir, &convert, &item), Ok(()));
    assert_eq!(*made.lock().unwrap(), 0);
}

#[test]
fn run_job_puts_a_failure_under_the_source() {
    let fail = |_job: &ConversionJob| -> ConversionOutcome {
        Err(Failure::new("bad cell").context("Failed to finish CSV reading: \"a.csv\""))
    };
    assert_eq!(
        run_job(&fail, &job("a.csv", "out.parquet")),
        Err(Failure::from_causes(vec![
            "Failed to process file: \"a.csv\"".to_string(),
            "Failed to finish CSV reading: \"a.csv\"".to_string(),
            "bad cell".to_string(),
        ]))
    );
    let pass = |_job: &ConversionJob| -> ConversionOutcome { Ok(()) };
    assert_eq!(run_job(&pass, &job("a.csv", "out.parquet")), Ok(()));
}
