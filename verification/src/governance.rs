use crate::errors::ErrorCode;
use crate::events::{ProposalCreated, ProposalExecuted, Voted};
use crate::principal::Principal;
use vstd::prelude::*;

verus! {

/// A proposal and the votes counted for and against it.
#[derive(Clone, Debug, PartialEq, Eq)]
pub struct ProposalAccount {
    pub creator: Principal,
    pub proposal_id: u64,
    pub description: String,
    pub yes_votes: u64,
    pub no_votes: u64,
    pub executed: bool,
}

/// The ballot of one voter on one proposal.
#[derive(Clone, Copy, Debug, PartialEq, Eq)]
pub struct VoteAccount {
    pub voter: Principal,
    pub proposal_id: u64,
    pub has_voted: bool,
}

/// A proposal as it is put up: no votes, not executed.
pub open spec fn fresh_proposal(
    creator: Principal,
    proposal_id: u64,
    description: String,
) -> ProposalAccount {
    ProposalAccount {
        creator,
        proposal_id,
        description,
        yes_votes: 0,
        no_votes: 0,
        executed: false,
    }
}

/// Puts up a proposal, and gives the event that announces it.
pub fn create_proposal(creator: Principal, proposal_id: u64, description: String) -> (created: (
    ProposalAccount,
    ProposalCreated,
))
    ensures
        created.0 == fresh_proposal(creator, proposal_id, description),
        created.1 == (ProposalCreated { creator, proposal_id, description }),
{
    let announced = description.clone();
    (
        ProposalAccount {
            creator,
            proposal_id,
            description,
            yes_votes: 0,
            no_votes: 0,
            executed: false,
        },
        ProposalCreated { creator, proposal_id, description: announced },
    )
}

/// Whether this ballot may be cast on this proposal.
pub open spec fn vote_check(
    proposal: ProposalAccount,
    ballot: VoteAccount,
    proposal_id: u64,
    vote_yes: bool,
) -> Result<(), ErrorCode> {
    if ballot.has_voted {
        Err(ErrorCode::InvalidVote)
    } else if proposal.proposal_id != proposal_id || proposal.executed {
        Err(ErrorCode::InvalidProposal)
    } else if (if vote_yes {
        proposal.yes_votes
    } else {
        proposal.no_votes
    }) == u64::MAX {
        Err(ErrorCode::Overflow)
    } else {
        Ok(())
    }
}

/// The proposal with one more vote on the side chosen.
pub open spec fn counted(proposal: ProposalAccount, vote_yes: bool) -> ProposalAccount {
    if vote_yes {
        ProposalAccount { yes_votes: (proposal.yes_votes + 1) as u64, ..proposal }
    } else {
        ProposalAccount { no_votes: (proposal.no_votes + 1) as u64, ..proposal }
    }
}

/// Casts a vote. A ballot is cast once; an executed proposal takes no more
/// votes. Where the vote is refused, proposal and ballot stay as they were.
pub fn vote(
    proposal: &mut ProposalAccount,
    ballot: &mut VoteAccount,
    voter: Principal,
    proposal_id: u64,
    vote_yes: bool,
) -> (result: Result<Voted, ErrorCode>)
    ensures
        match vote_check(*old(proposal), *old(ballot), proposal_id, vote_yes) {
            Err(e) => result == Err::<Voted, ErrorCode>(e) && *final(proposal) == *old(proposal)
                && *final(ballot) == *old(ballot),
            Ok(()) => result == Ok::<Voted, ErrorCode>(
                Voted { voter, proposal_id, vote: vote_yes },
            ) && *final(proposal) == counted(*old(proposal), vote_yes) && *final(ballot) == (
            VoteAccount { has_voted: true, ..*old(ballot) }),
        },
{
    if ballot.has_voted {
        return Err(ErrorCode::InvalidVote);
    }
    if proposal.proposal_id != proposal_id || proposal.executed {
        return Err(ErrorCode::InvalidProposal);
    }
    if vote_yes {
        if proposal.yes_votes == u64::MAX {
            return Err(ErrorCode::Overflow);
        }
        proposal.yes_votes = proposal.yes_votes + 1;
    } else {
        if proposal.no_votes == u64::MAX {
            return Err(ErrorCode::Overflow);
        }
        proposal.no_votes = proposal.no_votes + 1;
    }
    ballot.has_voted = true;
    Ok(Voted { voter, proposal_id, vote: vote_yes })
}

/// Closes a proposal, once. It carries if strictly more votes were cast for
/// it than against it.
pub fn execute_proposal(proposal: &mut ProposalAccount, proposal_id: u64) -> (result: Result<
    ProposalExecuted,
    ErrorCode,
>)
    ensures
        if old(proposal).proposal_id != proposal_id || old(proposal).executed {
            result == Err::<ProposalExecuted, ErrorCode>(ErrorCode::InvalidProposal) && *final(proposal) == *old(proposal)
        } else {
            result == Ok::<ProposalExecuted, ErrorCode>(
                ProposalExecuted {
                    proposal_id,
                    success: old(proposal).yes_votes > old(proposal).no_votes,
                },
            ) && *final(proposal) == (ProposalAccount { executed: true, ..*old(proposal) })
        },
{
    if proposal.proposal_id != proposal_id || proposal.executed {
        return Err(ErrorCode::InvalidProposal);
    }
    let success = proposal.yes_votes > proposal.no_votes;
    proposal.executed = true;
    Ok(ProposalExecuted { proposal_id, success })
}

} // verus!
