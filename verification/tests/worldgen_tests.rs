//! Generation, biome map, dimension and command tests, including the
//! concrete seed-12345 scenarios.

use worldgen::biome::BiomeRegistry;
use worldgen::block::{BlockType, ChunkRelativePos};
use worldgen::chunk::ChunkPos;
use worldgen::codec::encode_packet_chunk;
use worldgen::chunk::PacketChunk;
use worldgen::constants::{CHUNK_BLOCK_COUNT, CHUNK_SIZE};
use worldgen::dimension::Dimension;
use worldgen::gen::{material_for, test_sweep_position, use_parallel_generation, ChunkGeneratorCore};
use worldgen::heights::apply_blending;
use worldgen::noise::{noise_generator_seeds, NoiseLayer1D, NoiseLayer2D};
use worldgen::schema::{
    BiomeConfig, BiomeMapAdjustments, BiomeSchema, BiomeTypes, BlendingMode, DimensionSchema,
    NoiseConfig, NoiseFunctions,
};
use worldgen::seed::{get_chunk_seed, splitmix64};
use worldgen::server::{
    parse_i32, parse_u32, CommandError, Server, ServerCommand, ServerCommandId,
};

fn zero_noise() -> NoiseFunctions {
    let off = NoiseConfig {
        amplitude_milli: 0,
        weight_milli: 0,
        blending_mode: BlendingMode::Mix,
    };
    NoiseFunctions {
        continental: off,
        mountainous: off,
        hilly: off,
        texture: off,
        cellular: off,
        gridlike: off,
    }
}

fn biome_at(temperature: u8, humidity: u8, biome_type: BiomeTypes) -> BiomeSchema {
    BiomeSchema {
        biome_config: BiomeConfig {
            temperature,
            humidity,
            biome_type,
            surface_block: 2,
            subsurface_block: 1,
            base_block: 0,
        },
        noise_functions: zero_noise(),
    }
}

fn basic_schema() -> DimensionSchema {
    DimensionSchema {
        name: String::from("world"),
        size_x: 100,
        size_y: 100,
        biome_map_adjustments: None,
    }
}

fn neutral_core(seed: i32) -> ChunkGeneratorCore {
    let schemas = vec![biome_at(50, 50, BiomeTypes::Neutral)];
    ChunkGeneratorCore::new(seed, &schemas, &basic_schema())
}

fn fill_chunk_caches(core: &mut ChunkGeneratorCore, x: i32, y: i32) {
    core.sampler
        .insert_chunk_maps(x, y, &vec![50_000; 4], &vec![50_000; 4]);
    if y != 0 {
        core.sampler
            .insert_chunk_maps(x, 0, &vec![50_000; 4], &vec![50_000; 4]);
    }
    core.sampler.insert_columns(x, &vec![vec![0i64; 32]; 6]);
}

#[test]
fn splitmix64_matches_reference_value() {
    assert_eq!(splitmix64(0), 0xE220A8397B1DCDAF);
    assert_eq!(splitmix64(1), splitmix64(1));
    assert_ne!(splitmix64(1), splitmix64(2));
}

#[test]
fn chunk_seed_is_deterministic_and_spreads() {
    assert_eq!(get_chunk_seed(12345, 0, 0), get_chunk_seed(12345, 0, 0));
    assert_ne!(get_chunk_seed(12345, 0, 0), get_chunk_seed(12345, 1, 0));
    assert_ne!(get_chunk_seed(12345, 0, 0), get_chunk_seed(12346, 0, 0));
}

#[test]
fn generator_seed_sequence_is_stable() {
    let a = noise_generator_seeds(12345);
    let b = noise_generator_seeds(12345);
    assert_eq!(a, b);
    assert_eq!(a.continental, 12345);
    assert_eq!(a.biome_sampling, -12345);
    let c = noise_generator_seeds(54321);
    assert_ne!(a.mountainous, c.mountainous);
}

#[test]
fn surface_chunk_at_origin_writes_one_surface_row() {
    // Scenario: seed 12345, one neutral biome at (50, 50) with zero
    // amplitudes, chunk (0, 0).  The baked height is exactly zero, so the
    // depth rule writes the surface block across the world_y = 0 row and
    // everything above stays air.
    let mut core = neutral_core(12345);
    fill_chunk_caches(&mut core, 0, 0);
    let chunk = core.generate_chunk(ChunkPos::new(0, 0));
    for i in 0..CHUNK_BLOCK_COUNT {
        let y = i / CHUNK_SIZE;
        if y == 0 {
            assert_eq!(chunk.foreground.block_type[i], BlockType::Tile);
            assert_eq!(chunk.foreground.block_id[i], 2);
        } else {
            assert_eq!(chunk.foreground.block_type[i], BlockType::Air);
            assert_eq!(chunk.foreground.block_id[i], 0);
        }
        assert_eq!(chunk.middleground.block_type[i], BlockType::Air);
        assert_eq!(chunk.background.block_type[i], BlockType::Air);
    }
    assert_eq!(chunk.get_total_block_count(), 32);
}

#[test]
fn underground_chunk_follows_depth_rule() {
    // Scenario: same world, chunk (0, -1): world_y runs -32..=-1, all of
    // it at or below the zero height, so every block is a tile whose id
    // follows the depth rule: five subsurface rows, then the base block.
    let mut core = neutral_core(12345);
    fill_chunk_caches(&mut core, 0, -1);
    let chunk = core.generate_chunk(ChunkPos::new(0, -1));
    for i in 0..CHUNK_BLOCK_COUNT {
        let y = i / CHUNK_SIZE;
        let world_y = y as i32 - 32;
        let depth = -world_y;
        assert_eq!(chunk.foreground.block_type[i], BlockType::Tile);
        if (1..=5).contains(&depth) {
            assert_eq!(chunk.foreground.block_id[i], 1);
        } else {
            assert_eq!(chunk.foreground.block_id[i], 0);
        }
    }
    assert_eq!(chunk.get_total_block_count(), 1024);
}

#[test]
fn repeated_requests_produce_one_chunk() {
    let mut core = neutral_core(12345);
    fill_chunk_caches(&mut core, 0, 0);
    let mut dimension = Dimension::from_schema(&basic_schema());
    let first = dimension.try_load_chunk(ChunkPos::new(0, 0));
    let second = dimension.try_load_chunk(ChunkPos::new(0, 0));
    assert!(first);
    assert!(!second);
    let chunk = core.generate_chunk(ChunkPos::new(0, 0));
    dimension.receive_chunk(ChunkPos::new(0, 0), chunk);
    assert_eq!(dimension.chunk_count(), 1);
    assert!(!dimension.try_load_chunk(ChunkPos::new(0, 0)));
    assert_eq!(dimension.chunk_count(), 1);
}

#[test]
fn out_of_bounds_chunks_are_never_requested() {
    let schema = DimensionSchema {
        name: String::from("small"),
        size_x: 10,
        size_y: 10,
        biome_map_adjustments: None,
    };
    let mut dimension = Dimension::from_schema(&schema);
    assert!(!dimension.try_load_chunk(ChunkPos::new(5, 0)));
    assert!(!dimension.try_load_chunk(ChunkPos::new(-5, 0)));
    assert!(!dimension.try_load_chunk(ChunkPos::new(0, 5)));
    assert!(!dimension.try_load_chunk(ChunkPos::new(0, -5)));
    assert_eq!(dimension.chunk_count(), 0);
    assert!(dimension.try_load_chunk(ChunkPos::new(4, 0)));
    assert!(dimension.try_load_chunk(ChunkPos::new(-4, 0)));
}

#[test]
fn streaming_window_requests_each_coordinate_once() {
    let mut dimension = Dimension::from_schema(&basic_schema());
    let issued = dimension.load_chunks();
    assert_eq!(issued.len(), 25);
    for pos in &issued {
        assert!((-2..=2).contains(&pos.x));
        assert!((-2..=2).contains(&pos.y));
    }
    let again = dimension.load_chunks();
    assert!(again.is_empty());
}

#[test]
fn speed_test_sweep_covers_requested_count_without_storing() {
    let mut events = Vec::new();
    for k in 0..100u32 {
        events.push(test_sweep_position(k));
    }
    assert_eq!(events.len(), 100);
    assert_eq!(events[0], ChunkPos::new(0, 0));
    assert_eq!(events[99], ChunkPos::new(99, 0));
    let dimension = Dimension::from_schema(&basic_schema());
    assert_eq!(dimension.chunk_count(), 0);
}

#[test]
fn material_rules_choose_ice_water_and_air() {
    let config = |ty: BiomeTypes| BiomeConfig {
        temperature: 50,
        humidity: 50,
        biome_type: ty,
        surface_block: 2,
        subsurface_block: 1,
        base_block: 0,
    };
    // Above the height but at or below world height zero.
    assert_eq!(
        material_for(-500, 0, &config(BiomeTypes::Cold)),
        Some(6),
        "cold surface row freezes"
    );
    assert_eq!(material_for(-500, 0, &config(BiomeTypes::Freezing)), Some(6));
    assert_eq!(material_for(-500, 0, &config(BiomeTypes::Neutral)), Some(3));
    assert_eq!(material_for(-6000, -3, &config(BiomeTypes::Warm)), None);
    assert_eq!(material_for(-9000, -6, &config(BiomeTypes::Warm)), Some(3));
    assert_eq!(material_for(-9000, -6, &config(BiomeTypes::Hot)), None);
    assert_eq!(material_for(-9000, -6, &config(BiomeTypes::Freezing)), Some(6));
    // At or below the height: the depth rule.
    assert_eq!(material_for(0, 0, &config(BiomeTypes::Neutral)), Some(2));
    assert_eq!(material_for(0, -3, &config(BiomeTypes::Neutral)), Some(1));
    assert_eq!(material_for(0, -6, &config(BiomeTypes::Neutral)), Some(0));
    assert_eq!(material_for(7000, 7, &config(BiomeTypes::Neutral)), Some(2));
    assert_eq!(material_for(7000, 8, &config(BiomeTypes::Neutral)), None);
}

#[test]
fn blending_modes_fold_exactly() {
    assert_eq!(apply_blending(1000, -500, &BlendingMode::Mix), 500);
    assert_eq!(apply_blending(1000, -500, &BlendingMode::MixPositive), 1000);
    assert_eq!(apply_blending(1000, 500, &BlendingMode::MixPositive), 1500);
    assert_eq!(apply_blending(1000, -500, &BlendingMode::MixNegative), 500);
    assert_eq!(apply_blending(1000, 500, &BlendingMode::MixNegative), 1000);
    assert_eq!(apply_blending(1000, -500, &BlendingMode::Add), 1500);
    assert_eq!(apply_blending(1000, -500, &BlendingMode::Subtract), 500);
    // Fixed point: 2.000 * 1.500 = 3.000.
    assert_eq!(apply_blending(2000, 1500, &BlendingMode::Multiply), 3000);
    assert_eq!(apply_blending(-2000, 1500, &BlendingMode::Multiply), -3000);
}

#[test]
fn biome_map_blends_two_distant_biomes_evenly() {
    // Scenario: biomes at (20, 20) and (80, 80); the midpoint probe blends
    // them evenly and keeps them distinct.
    let schemas = vec![
        biome_at(20, 20, BiomeTypes::Neutral),
        biome_at(80, 80, BiomeTypes::Neutral),
    ];
    let registry = BiomeRegistry::new(&schemas);
    let blend = registry.biome_map.get_blend_percent(50, 50);
    assert!((40..=60).contains(&blend));
    assert_eq!(blend, 50);
    let primary = registry.biome_map.get_best_biome(50, 50);
    let secondary = registry.biome_map.get_second_best_biome(50, 50);
    assert_ne!(primary, secondary);
}

#[test]
fn single_biome_owns_the_whole_plane() {
    let schemas = vec![biome_at(20, 20, BiomeTypes::Neutral)];
    let registry = BiomeRegistry::new(&schemas);
    let primary = registry.biome_map.get_best_biome(50, 50);
    let secondary = registry.biome_map.get_second_best_biome(50, 50);
    assert_eq!(primary, secondary);
    assert_eq!(registry.biome_map.get_blend_percent(50, 50), 100);
}

#[test]
fn blend_percentages_follow_the_inverse_square_formula() {
    let schemas = vec![
        biome_at(50, 50, BiomeTypes::Neutral),
        biome_at(60, 60, BiomeTypes::Neutral),
    ];
    let registry = BiomeRegistry::new(&schemas);
    // On a biome's home cell the primary is used alone.
    assert_eq!(registry.biome_map.get_blend_percent(50, 50), 100);
    // Inside the core region (squared distance below the threshold) with
    // the runner-up beyond it.
    assert_eq!(registry.biome_map.get_blend_percent(52, 52), 100);
    // Outside: round(100 * b^2 / (a^2 + b^2)) with a = 32, b = 72.
    assert_eq!(registry.biome_map.get_blend_percent(56, 56), 84);
}

#[test]
fn biome_map_closure_holds_across_the_plane() {
    let schemas = vec![
        biome_at(10, 90, BiomeTypes::Cold),
        biome_at(55, 40, BiomeTypes::Neutral),
        biome_at(95, 5, BiomeTypes::Hot),
    ];
    let registry = BiomeRegistry::new(&schemas);
    for t in 0..100u8 {
        for h in 0..100u8 {
            let primary = registry.biome_map.get_best_biome(t, h);
            let secondary = registry.biome_map.get_second_best_biome(t, h);
            let blend = registry.biome_map.get_blend_percent(t, h);
            assert!(primary < 3);
            assert!(secondary < 3);
            assert!(blend <= 100);
            assert_ne!(primary, secondary);
        }
    }
}

#[test]
fn interpolated_maps_carry_remapped_temperature() {
    let mut core = neutral_core(7);
    core.sampler
        .insert_chunk_maps(0, 0, &vec![70_000; 4], &vec![70_000; 4]);
    // Temperature 70 remaps about 50 by 3/10 to 56; humidity stays 70.
    assert_eq!(core.sampler.get_noise_2d(0, 0, 0), 56);
    assert_eq!(core.sampler.get_noise_2d(17, 12, 0), 56);
    assert_eq!(core.sampler.get_noise_2d(3, 9, 1), 70);
}

#[test]
fn vertical_bias_cools_high_altitudes() {
    let schema = DimensionSchema {
        name: String::from("biased"),
        size_x: 100,
        size_y: 100,
        biome_map_adjustments: Some(BiomeMapAdjustments {
            horizontal_temperature_variation: 0,
            vertical_temperature_variation: 80,
        }),
    };
    let schemas = vec![biome_at(50, 50, BiomeTypes::Neutral)];
    let mut core = ChunkGeneratorCore::new(7, &schemas, &schema);
    core.sampler
        .insert_chunk_maps(0, 1, &vec![50_000; 4], &vec![50_000; 4]);
    // world_y = 44: bias = -80000 * 44 / 1600 = -2200, so 50.000 - 2.200
    // rounds to 48.
    assert_eq!(core.sampler.get_noise_2d(0, 44, 0), 48);
}

#[test]
fn generation_is_deterministic_for_equal_inputs() {
    let mut core1 = neutral_core(4242);
    let mut core2 = neutral_core(4242);
    fill_chunk_caches(&mut core1, 3, -2);
    fill_chunk_caches(&mut core2, 3, -2);
    let c1 = core1.generate_chunk(ChunkPos::new(3, -2));
    let c2 = core2.generate_chunk(ChunkPos::new(3, -2));
    let b1 = encode_packet_chunk(&PacketChunk::from_chunk(&c1));
    let b2 = encode_packet_chunk(&PacketChunk::from_chunk(&c2));
    assert_eq!(b1, b2);
    assert_eq!(c1.get_total_block_count(), c2.get_total_block_count());
}

#[test]
fn baked_heights_depend_only_on_the_column() {
    let mut core1 = neutral_core(99);
    let mut core2 = neutral_core(99);
    fill_chunk_caches(&mut core1, 4, 6);
    fill_chunk_caches(&mut core2, 4, -6);
    core1.ensure_heights(4);
    core2.ensure_heights(4);
    let key = 4u64;
    assert_eq!(core1.baked_heights.get(&key), core2.baked_heights.get(&key));
}

#[test]
fn noise_layers_store_and_read_back() {
    let mut layer2 = NoiseLayer2D::new();
    layer2.write(ChunkRelativePos::new(4, 3), 77);
    assert_eq!(layer2.read(ChunkRelativePos::new(4, 3)), 77);
    assert_eq!(layer2.read_index(3 * CHUNK_SIZE + 4), 77);
    assert_eq!(layer2.read_index(0), 0);
    let mut layer1 = NoiseLayer1D::new();
    layer1.write(31, -1234);
    assert_eq!(layer1.read(31), -1234);
    assert_eq!(layer1.read(0), 0);
}

#[test]
fn negative_world_coordinates_reach_their_column() {
    let mut core = neutral_core(5);
    let mut columns = vec![vec![0i64; 32]; 6];
    columns[2][31] = 4500;
    core.sampler.insert_columns(-1, &columns);
    // World x = -1 lies in chunk -1 at local position 31.
    assert_eq!(core.sampler.get_noise_1d(-1, 2), 4500);
    assert_eq!(core.sampler.get_noise_1d(-32, 2), 0);
    let column = core.sampler.get_noise_layer_1d(-1, 2);
    assert_eq!(column.read(31), 4500);
}

#[test]
fn sample_positions_are_deterministic_distinct_and_inside_the_chunk() {
    let core1 = neutral_core(12345);
    let core2 = neutral_core(12345);
    let (t1, h1) = core1.sampler.sample_positions(2, -7);
    let (t2, h2) = core2.sampler.sample_positions(2, -7);
    assert_eq!(t1.len(), 4);
    assert_eq!(h1.len(), 4);
    let mut all = Vec::new();
    for i in 0..4 {
        assert_eq!((t1[i].x, t1[i].y), (t2[i].x, t2[i].y));
        assert_eq!((h1[i].x, h1[i].y), (h2[i].x, h2[i].y));
        assert!((t1[i].x as usize) < CHUNK_SIZE && (t1[i].y as usize) < CHUNK_SIZE);
        assert!((h1[i].x as usize) < CHUNK_SIZE && (h1[i].y as usize) < CHUNK_SIZE);
        all.push((t1[i].x, t1[i].y));
        all.push((h1[i].x, h1[i].y));
    }
    // All eight scattered points of a chunk are pairwise distinct.
    for a in 0..all.len() {
        for b in 0..a {
            assert_ne!(all[a], all[b]);
        }
    }
}

#[test]
fn parallel_dispatch_uses_the_threshold() {
    assert!(!use_parallel_generation(1));
    assert!(!use_parallel_generation(3));
    assert!(use_parallel_generation(4));
    assert!(use_parallel_generation(100));
}

#[test]
fn decimal_arguments_parse_exactly() {
    assert_eq!(parse_u32("0"), Some(0));
    assert_eq!(parse_u32("4294967295"), Some(u32::MAX));
    assert_eq!(parse_u32("4294967296"), None);
    assert_eq!(parse_u32(""), None);
    assert_eq!(parse_u32("12a"), None);
    assert_eq!(parse_i32("42"), Some(42));
    assert_eq!(parse_i32("+7"), Some(7));
    assert_eq!(parse_i32("-42"), Some(-42));
    assert_eq!(parse_i32("2147483647"), Some(i32::MAX));
    assert_eq!(parse_i32("-2147483648"), Some(i32::MIN));
    assert_eq!(parse_i32("2147483648"), None);
    assert_eq!(parse_i32("-2147483649"), None);
    assert_eq!(parse_i32("-"), None);
    assert_eq!(parse_i32("4-2"), None);
}

#[test]
fn command_validation_reports_each_failure() {
    let mut server = Server::new();
    assert!(server.is_running());
    assert!(server.compress_sent_data);
    server.switch_compression_state();
    assert!(!server.compress_sent_data);
    server.add_dimension(Dimension::from_schema(&basic_schema()));

    let no_args: Vec<String> = Vec::new();
    assert_eq!(
        server
            .validate_server_command(ServerCommandId::ResetDimension, &no_args)
            .unwrap_err(),
        CommandError::NotEnoughArguments
    );
    let unknown = vec![String::from("nowhere")];
    assert_eq!(
        server
            .validate_server_command(ServerCommandId::ResetDimension, &unknown)
            .unwrap_err(),
        CommandError::DimensionNotFound
    );
    let bad_seed = vec![String::from("world"), String::from("abc")];
    assert_eq!(
        server
            .validate_server_command(ServerCommandId::ResetDimension, &bad_seed)
            .unwrap_err(),
        CommandError::WrongType
    );
    let good = vec![String::from("world"), String::from("-7")];
    match server
        .validate_server_command(ServerCommandId::ResetDimension, &good)
        .unwrap()
    {
        ServerCommand::ResetDimension { name, seed } => {
            assert_eq!(name, "world");
            assert_eq!(seed, Some(-7));
        }
        other => panic!("unexpected command: {:?}", other),
    }
    let default_limit = vec![String::from("world")];
    match server
        .validate_server_command(ServerCommandId::TestChunkSpeed, &default_limit)
        .unwrap()
    {
        ServerCommand::TestChunkSpeed { name, limit } => {
            assert_eq!(name, "world");
            assert_eq!(limit, 10000);
        }
        other => panic!("unexpected command: {:?}", other),
    }
    match server
        .validate_server_command(ServerCommandId::StopServer, &no_args)
        .unwrap()
    {
        ServerCommand::StopServer => {}
        other => panic!("unexpected command: {:?}", other),
    }
    server.stop();
    assert!(!server.is_running());
}
