use guildkeeper::cascade::{
    next_move, CascadeError, Conflict, Move, Reply, Step, StepName, Request,
};

fn text(s: &str) -> String {
    s.to_string()
}

fn member(user: &str) -> Request<String> {
    Request::Member { guild: text("g"), user: text(user) }
}

fn insert(user: &str) -> Request<String> {
    Request::InsertMember { guild: text("g"), user: text(user) }
}

fn delete(id: &str) -> Request<String> {
    Request::DeleteChannel { id: text(id) }
}

fn write(request: Request<String>) -> Step<String> {
    Step { request, expect: Reply::Done, conflict: None, undo: None }
}

fn three_steps() -> Vec<Step<String>> {
    vec![
        Step {
            request: member("u"),
            expect: Reply::Absent,
            conflict: Some(Conflict::AlreadyMember),
            undo: None,
        },
        write(insert("u")),
        Step {
            request: insert("v"),
            expect: Reply::Done,
            conflict: Some(Conflict::AlreadyMember),
            undo: Some(delete("c")),
        },
    ]
}

#[test]
fn step_names_follow_the_request() {
    assert_eq!(member("u").step_name(), StepName::Member);
    assert_eq!(insert("u").step_name(), StepName::InsertMember);
    assert_eq!(delete("c").step_name(), StepName::DeleteChannel);
    assert_eq!(Request::GuildNonce { nonce: text("n") }.step_name(), StepName::GuildNonce);
    assert_eq!(Request::ChannelNonce { nonce: text("n") }.step_name(), StepName::ChannelNonce);
    assert_eq!(Request::DeleteMessages { guild: text("g") }.step_name(), StepName::DeleteMessages);
    assert_eq!(Request::DeleteChannels { guild: text("g") }.step_name(), StepName::DeleteChannels);
    assert_eq!(Request::DeleteMembers { guild: text("g") }.step_name(), StepName::DeleteMembers);
    assert_eq!(Request::DeleteGuild { id: text("g") }.step_name(), StepName::DeleteGuild);
    assert_eq!(
        Request::PullBan { guild: text("g"), user: text("u") }.step_name(),
        StepName::PullBan
    );
}

#[test]
fn empty_cascade_is_finished() {
    let steps: Vec<Step<String>> = vec![];
    assert_eq!(next_move(&steps, &vec![]), Move::Finished);
    assert_eq!(next_move(&steps, &vec![Reply::Failed]), Move::Finished);
}

#[test]
fn steps_are_asked_in_order() {
    let steps = three_steps();
    assert_eq!(next_move(&steps, &vec![]), Move::Ask(&member("u")));
    assert_eq!(next_move(&steps, &vec![Reply::Absent]), Move::Ask(&insert("u")));
    assert_eq!(next_move(&steps, &vec![Reply::Absent, Reply::Done]), Move::Ask(&insert("v")));
    assert_eq!(
        next_move(&steps, &vec![Reply::Absent, Reply::Done, Reply::Done]),
        Move::Finished
    );
}

#[test]
fn opposite_answer_before_any_write_is_the_conflict() {
    let steps = three_steps();
    assert_eq!(
        next_move(&steps, &vec![Reply::Found]),
        Move::Failed(CascadeError::Conflict(Conflict::AlreadyMember))
    );
}

#[test]
fn failure_before_any_write_is_store_unavailable() {
    let steps = three_steps();
    assert_eq!(
        next_move(&steps, &vec![Reply::Failed]),
        Move::Failed(CascadeError::StoreUnavailable(StepName::Member))
    );
    assert_eq!(
        next_move(&steps, &vec![Reply::Done]),
        Move::Failed(CascadeError::StoreUnavailable(StepName::Member))
    );
    assert_eq!(
        next_move(&steps, &vec![Reply::Absent, Reply::Failed]),
        Move::Failed(CascadeError::StoreUnavailable(StepName::InsertMember))
    );
}

#[test]
fn refused_write_without_a_named_conflict_is_store_unavailable() {
    let steps = three_steps();
    assert_eq!(
        next_move(&steps, &vec![Reply::Absent, Reply::Duplicate]),
        Move::Failed(CascadeError::StoreUnavailable(StepName::InsertMember))
    );
}

#[test]
fn failure_after_a_write_asks_for_the_undo_and_is_partial() {
    let steps = three_steps();
    let failed = vec![Reply::Absent, Reply::Done, Reply::Failed];
    assert_eq!(next_move(&steps, &failed), Move::Ask(&delete("c")));
    let undone = vec![Reply::Absent, Reply::Done, Reply::Failed, Reply::Done];
    assert_eq!(
        next_move(&steps, &undone),
        Move::Failed(CascadeError::PartialCascadeFailure(StepName::InsertMember))
    );
    let refused = vec![Reply::Absent, Reply::Done, Reply::Duplicate, Reply::Done];
    assert_eq!(
        next_move(&steps, &refused),
        Move::Failed(CascadeError::PartialCascadeFailure(StepName::InsertMember))
    );
}

#[test]
fn failed_undo_is_reported_by_its_own_name() {
    let steps = three_steps();
    let replies = vec![Reply::Absent, Reply::Done, Reply::Failed, Reply::Failed];
    assert_eq!(
        next_move(&steps, &replies),
        Move::Failed(CascadeError::PartialCascadeFailure(StepName::DeleteChannel))
    );
}

#[test]
fn failure_without_undo_after_a_write_is_partial() {
    let steps = vec![write(insert("u")), write(insert("v")), write(insert("w"))];
    assert_eq!(
        next_move(&steps, &vec![Reply::Failed]),
        Move::Failed(CascadeError::StoreUnavailable(StepName::InsertMember))
    );
    assert_eq!(
        next_move(&steps, &vec![Reply::Done, Reply::Failed]),
        Move::Failed(CascadeError::PartialCascadeFailure(StepName::InsertMember))
    );
    assert_eq!(
        next_move(&steps, &vec![Reply::Done, Reply::Done, Reply::Failed]),
        Move::Failed(CascadeError::PartialCascadeFailure(StepName::InsertMember))
    );
}

#[test]
fn replies_after_the_failing_one_do_not_revive_a_cascade() {
    let steps = vec![write(insert("u")), write(insert("v"))];
    assert_eq!(
        next_move(&steps, &vec![Reply::Failed, Reply::Done]),
        Move::Failed(CascadeError::StoreUnavailable(StepName::InsertMember))
    );
}
