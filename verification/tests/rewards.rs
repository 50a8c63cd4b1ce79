use rpc_ext::rewards::{ChainForks, EthApi, RewardBlock, RewardHeader, RewardKind};

const ETH: u128 = 1_000_000_000_000_000_000;

fn mainnet() -> EthApi {
    EthApi::new(ChainForks { byzantium: Some(4_370_000), constantinople: Some(7_280_000), paris: Some(15_537_394) })
}

fn header(number: u64, who: u8) -> RewardHeader {
    RewardHeader { number, beneficiary: [who; 20] }
}

#[test]
fn base_reward_follows_the_forks() {
    let api = mainnet();
    assert_eq!(api.calculate_base_block_reward(&header(0, 1)), Some(5 * ETH));
    assert_eq!(api.calculate_base_block_reward(&header(4_369_999, 1)), Some(5 * ETH));
    assert_eq!(api.calculate_base_block_reward(&header(4_370_000, 1)), Some(3 * ETH));
    assert_eq!(api.calculate_base_block_reward(&header(7_280_000, 1)), Some(2 * ETH));
    assert_eq!(api.calculate_base_block_reward(&header(15_537_393, 1)), Some(2 * ETH));
    assert_eq!(api.calculate_base_block_reward(&header(15_537_394, 1)), None);
    assert_eq!(api.calculate_base_block_reward(&header(20_000_000, 1)), None);
}

#[test]
fn chain_without_forks_pays_five_ether() {
    let api = EthApi::new(ChainForks { byzantium: None, constantinople: None, paris: None });
    assert_eq!(api.calculate_base_block_reward(&header(u64::MAX, 1)), Some(5 * ETH));
}

#[test]
fn block_without_ommers_has_one_reward_trace() {
    let api = mainnet();
    let h = header(1000, 7);
    let traces = api.extract_reward_traces(&h, [3; 32], None, 5 * ETH);
    assert_eq!(traces.len(), 1);
    assert_eq!(traces[0].reward_type, RewardKind::Block);
    assert_eq!(traces[0].author, [7; 20]);
    assert_eq!(traces[0].value, 5 * ETH);
    assert_eq!(traces[0].block_hash, [3; 32]);
    assert_eq!(traces[0].block_number, 1000);
    let empty: Vec<RewardHeader> = Vec::new();
    let traces = api.extract_reward_traces(&h, [3; 32], Some(&empty), 5 * ETH);
    assert_eq!(traces.len(), 1);
    assert_eq!(traces[0].value, 5 * ETH);
}

#[test]
fn mainnet_block_126_with_one_ommer() {
    let api = mainnet();
    let h = header(126, 1);
    let ommers = vec![header(125, 2)];
    let traces = api.extract_reward_traces(&h, [9; 32], Some(&ommers), 5 * ETH);
    assert_eq!(traces.len(), 2);
    assert_eq!(traces[0].value, 5 * ETH + ((5 * ETH) >> 5));
    assert_eq!(traces[1].reward_type, RewardKind::Uncle);
    assert_eq!(traces[1].author, [2; 20]);
    assert_eq!(traces[1].value, (7 * 5 * ETH) / 8);
    assert_eq!(traces[1].block_number, 126);
    assert_eq!(traces[1].block_hash, [9; 32]);
}

#[test]
fn ommer_rewards_shrink_with_distance() {
    let api = mainnet();
    let h = header(5_000_000, 1);
    let ommers = vec![header(4_999_999, 2), header(4_999_994, 3)];
    let traces = api.extract_reward_traces(&h, [0; 32], Some(&ommers), 3 * ETH);
    assert_eq!(traces.len(), 3);
    assert_eq!(traces[0].value, 3 * ETH + 2 * ((3 * ETH) / 32));
    assert_eq!(traces[1].value, 7 * 3 * ETH / 8);
    assert_eq!(traces[2].value, 2 * 3 * ETH / 8);
}

#[test]
fn block_rewards_of_a_fetched_block() {
    let api = mainnet();
    assert!(api.block_rewards(None).is_empty());
    let post_merge = RewardBlock { header: header(16_000_000, 1), hash: [1; 32], ommers: Some(vec![]) };
    assert!(api.block_rewards(Some(post_merge)).is_empty());
    let pre_merge = RewardBlock { header: header(8_000_000, 4), hash: [5; 32], ommers: Some(vec![header(7_999_998, 6)]) };
    let traces = api.block_rewards(Some(pre_merge));
    assert_eq!(traces.len(), 2);
    assert_eq!(traces[0].value, 2 * ETH + (2 * ETH) / 32);
    assert_eq!(traces[0].author, [4; 20]);
    assert_eq!(traces[1].value, 6 * 2 * ETH / 8);
    assert_eq!(traces[1].author, [6; 20]);
    let no_list = RewardBlock { header: header(10, 4), hash: [5; 32], ommers: None };
    let traces = api.block_rewards(Some(no_list));
    assert_eq!(traces.len(), 1);
    assert_eq!(traces[0].value, 5 * ETH);
}

#[test]
fn reward_formulas_agree_with_the_outside_crate() {
    let api = mainnet();
    let h = header(200, 1);
    let ommers = vec![header(199, 2), header(195, 3)];
    let traces = api.extract_reward_traces(&h, [0; 32], Some(&ommers), 5 * ETH);
    assert_eq!(traces[0].value, alloy_evm::block::calc::block_reward(5 * ETH, 2));
    assert_eq!(traces[1].value, alloy_evm::block::calc::ommer_reward(5 * ETH, 200, 199));
    assert_eq!(traces[2].value, alloy_evm::block::calc::ommer_reward(5 * ETH, 200, 195));
}

#[test]
fn reward_traces_do_not_depend_on_the_fork_schedule_of_the_receiver() {
    let a = mainnet();
    let b = EthApi::new(ChainForks { byzantium: None, constantinople: None, paris: Some(1) });
    let h = header(300, 1);
    let ommers = vec![header(299, 2), header(294, 3)];
    let ta = a.extract_reward_traces(&h, [4; 32], Some(&ommers), 3 * ETH);
    let tb = b.extract_reward_traces(&h, [4; 32], Some(&ommers), 3 * ETH);
    assert_eq!(ta.len(), tb.len());
    for (x, y) in ta.iter().zip(tb.iter()) {
        assert_eq!((x.block_hash, x.block_number, x.author, x.reward_type, x.value),
            (y.block_hash, y.block_number, y.author, y.reward_type, y.value));
    }
    assert_eq!(a.forks.paris, Some(15_537_394));
    assert_eq!(b.forks.paris, Some(1));
}
