use chain_move::errors::ErrorCode;
use chain_move::events::{ProposalCreated, ProposalExecuted, Voted};
use chain_move::governance::{
    create_proposal, execute_proposal, vote, ProposalAccount, VoteAccount,
};
use chain_move::principal::Principal;

fn voter(tag: u8) -> Principal {
    Principal::new([tag; 32])
}

fn ballot(tag: u8, proposal_id: u64) -> VoteAccount {
    VoteAccount { voter: voter(tag), proposal_id, has_voted: false }
}

#[test]
fn proposal_starts_without_votes() {
    let (proposal, event) = create_proposal(voter(1), 7, String::from("raise the fee"));
    assert_eq!(
        proposal,
        ProposalAccount {
            creator: voter(1),
            proposal_id: 7,
            description: String::from("raise the fee"),
            yes_votes: 0,
            no_votes: 0,
            executed: false,
        }
    );
    assert_eq!(
        event,
        ProposalCreated {
            creator: voter(1),
            proposal_id: 7,
            description: String::from("raise the fee"),
        }
    );
}

#[test]
fn votes_are_counted_by_side() {
    let (mut proposal, _) = create_proposal(voter(1), 7, String::from("p"));
    let mut a = ballot(2, 7);
    let mut b = ballot(3, 7);
    let mut c = ballot(4, 7);
    assert_eq!(
        vote(&mut proposal, &mut a, voter(2), 7, true),
        Ok(Voted { voter: voter(2), proposal_id: 7, vote: true })
    );
    assert_eq!(
        vote(&mut proposal, &mut b, voter(3), 7, false),
        Ok(Voted { voter: voter(3), proposal_id: 7, vote: false })
    );
    vote(&mut proposal, &mut c, voter(4), 7, true).unwrap();
    assert_eq!(proposal.yes_votes, 2);
    assert_eq!(proposal.no_votes, 1);
    assert!(a.has_voted && b.has_voted && c.has_voted);
}

#[test]
fn second_vote_on_one_ballot_is_invalid() {
    let (mut proposal, _) = create_proposal(voter(1), 7, String::from("p"));
    let mut a = ballot(2, 7);
    vote(&mut proposal, &mut a, voter(2), 7, true).unwrap();
    assert_eq!(vote(&mut proposal, &mut a, voter(2), 7, false), Err(ErrorCode::InvalidVote));
    assert_eq!(proposal.yes_votes, 1);
    assert_eq!(proposal.no_votes, 0);
}

#[test]
fn vote_on_another_or_executed_proposal_is_invalid() {
    let (mut proposal, _) = create_proposal(voter(1), 7, String::from("p"));
    let mut a = ballot(2, 7);
    assert_eq!(vote(&mut proposal, &mut a, voter(2), 8, true), Err(ErrorCode::InvalidProposal));
    assert!(!a.has_voted);
    execute_proposal(&mut proposal, 7).unwrap();
    assert_eq!(vote(&mut proposal, &mut a, voter(2), 7, true), Err(ErrorCode::InvalidProposal));
    assert!(!a.has_voted);
    assert_eq!(proposal.yes_votes, 0);
}

#[test]
fn vote_at_the_limit_overflows() {
    let (mut proposal, _) = create_proposal(voter(1), 7, String::from("p"));
    proposal.yes_votes = u64::MAX;
    let mut a = ballot(2, 7);
    assert_eq!(vote(&mut proposal, &mut a, voter(2), 7, true), Err(ErrorCode::Overflow));
    assert!(!a.has_voted);
    assert_eq!(proposal.yes_votes, u64::MAX);
    assert!(vote(&mut proposal, &mut a, voter(2), 7, false).is_ok());
    assert_eq!(proposal.no_votes, 1);
}

#[test]
fn proposal_carries_on_strict_majority() {
    let (mut proposal, _) = create_proposal(voter(1), 7, String::from("p"));
    proposal.yes_votes = 3;
    proposal.no_votes = 2;
    assert_eq!(
        execute_proposal(&mut proposal, 7),
        Ok(ProposalExecuted { proposal_id: 7, success: true })
    );
    assert!(proposal.executed);

    let (mut tied, _) = create_proposal(voter(1), 8, String::from("q"));
    tied.yes_votes = 2;
    tied.no_votes = 2;
    assert_eq!(
        execute_proposal(&mut tied, 8),
        Ok(ProposalExecuted { proposal_id: 8, success: false })
    );
}

#[test]
fn proposal_executes_once() {
    let (mut proposal, _) = create_proposal(voter(1), 7, String::from("p"));
    assert_eq!(execute_proposal(&mut proposal, 9), Err(ErrorCode::InvalidProposal));
    assert!(!proposal.executed);
    execute_proposal(&mut proposal, 7).unwrap();
    assert_eq!(execute_proposal(&mut proposal, 7), Err(ErrorCode::InvalidProposal));
    assert!(proposal.executed);
}
