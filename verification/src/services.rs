pub mod storage_layer;
