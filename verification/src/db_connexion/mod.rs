pub mod db_connexion;
