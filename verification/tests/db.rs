use coil::db::batch_insert_statement;

#[test]
fn batch_of_two_jobs() {
    assert_eq!(
        "INSERT INTO \"_background_tasks\" (job_type, data) VALUES ($1,$2),($3,$4)",
        batch_insert_statement(2)
    );
}

#[test]
fn batch_of_one_job() {
    assert_eq!(
        "INSERT INTO \"_background_tasks\" (job_type, data) VALUES ($1,$2)",
        batch_insert_statement(1)
    );
}

#[test]
fn batch_numbers_past_nine() {
    let sql = batch_insert_statement(6);
    assert!(sql.ends_with("($9,$10),($11,$12)"));
    assert_eq!(6, sql.matches('(').count() - 1);
}

#[test]
fn empty_batch_has_no_rows() {
    assert_eq!(
        "INSERT INTO \"_background_tasks\" (job_type, data) VALUES ",
        batch_insert_statement(0)
    );
}

#[test]
fn batch_of_a_hundred_and_one() {
    let sql = batch_insert_statement(101);
    assert!(sql.ends_with(",($201,$202)"));
}
